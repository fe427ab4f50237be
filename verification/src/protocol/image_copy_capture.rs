//! Image capture: sources, and long-lived sessions that copy them into client
//! buffers. Shared memory only. A burst of constraints ends in exactly one done, a
//! dying session stops before its frame fails, and a size that changed under the
//! client re-states the constraints rather than failing.
use crate::list::{find, retain};
use crate::output::scene::{SubNode, SurfaceNode};
use crate::output::{first_slot, named, output_geometry, Output};
use crate::protocol::events::{refused, sent, told_invalid, Event, Out, Sent};
use crate::protocol::interfaces::Interface;
use crate::protocol::screencopy::RowCopy;
use crate::protocol::shm::{BufferStorage, WlBuffer};
use crate::protocol::{stamp, stamp_spec, ObjectId, Stamp};
use crate::text::same_text;
use vstd::prelude::*;

verus! {

pub const WL_SHM_XRGB8888: u32 = 1;

pub const WL_SHM_ARGB8888: u32 = 0;

pub const OPT_PAINT_CURSORS: u32 = 1;

pub const ERR_INVALID_OPTION: u32 = 1;

pub const ERR_DUPLICATE_FRAME: u32 = 1;

pub const ERR_NO_BUFFER: u32 = 1;

pub const ERR_INVALID_BUFFER_DAMAGE: u32 = 2;

pub const ERR_ALREADY_CAPTURED: u32 = 3;

pub const ERR_DUPLICATE_SESSION: u32 = 1;

pub const REASON_UNKNOWN: u32 = 0;

pub const REASON_STOPPED: u32 = 2;

/// What a source names; it is looked up at each use, never at creation.
pub enum SourceKind {
    /// a connector name, which a replug does not change
    Output(String),
    /// a window's identity; none once the window was let go of
    Toplevel(Option<u64>),
}

/// A window that is there: its drawn size and its surfaces.
pub struct LiveWindow {
    pub uid: u64,
    pub w: u32,
    pub h: u32,
    pub tree: SurfaceNode,
}

pub open spec fn is_window(uid: u64) -> spec_fn(LiveWindow) -> bool {
    |w: LiveWindow| w.uid == uid
}

/// What is captured.
#[derive(Clone, Copy, Debug, PartialEq, Eq, Structural)]
pub enum Target {
    /// an output, by slot
    Out(usize),
    /// a window, by identity
    Win(u64),
}

/// What a source stands for at the moment.
#[derive(Clone, Copy, Debug, PartialEq, Eq, Structural)]
pub struct Resolved {
    pub target: Target,
    pub w: u32,
    pub h: u32,
}

impl SourceKind {
    /// A copy that follows the same thing.
    pub fn snapshot(&self) -> (r: SourceKind)
        ensures
            r == *self,
    {
        match self {
            SourceKind::Output(n) => SourceKind::Output(n.clone()),
            SourceKind::Toplevel(w) => SourceKind::Toplevel(*w),
        }
    }

    pub open spec fn resolved(self, outs: Seq<Output>, windows: Seq<LiveWindow>) -> Option<Resolved> {
        match self {
            SourceKind::Output(name) => match first_slot(outs, named(name@)) {
                Some(k) => Some(
                    Resolved { target: Target::Out(outs[k].index), w: outs[k].width, h: outs[k].height },
                ),
                None => None,
            },
            SourceKind::Toplevel(None) => None,
            SourceKind::Toplevel(Some(uid)) => match first_slot(windows, is_window(uid)) {
                Some(k) => Some(Resolved { target: Target::Win(uid), w: windows[k].w, h: windows[k].h }),
                None => None,
            },
        }
    }

    /// What the source stands for, with its size; `None` when it is gone.
    pub fn resolve(&self, outs: &Vec<Output>, windows: &Vec<LiveWindow>) -> (r: Option<Resolved>)
        ensures
            r == self.resolved(outs@, windows@),
    {
        match self {
            SourceKind::Output(name) => match output_geometry(outs, name.as_str()) {
                Some(g) => Some(Resolved { target: Target::Out(g.0), w: g.1, h: g.2 }),
                None => None,
            },
            SourceKind::Toplevel(w) => match w {
                None => None,
                Some(u) => {
                    let uid: u64 = *u;
                    match find(
                        windows,
                        |x: &LiveWindow| -> (b: bool) ensures b == (x.uid == uid) { x.uid == uid },
                        Ghost(is_window(uid)),
                    ) {
                        Some(k) => Some(Resolved { target: Target::Win(uid), w: windows[k].w, h: windows[k].h }),
                        None => None,
                    }
                },
            },
        }
    }

    /// Lets go of the window.
    pub fn let_go(&mut self)
        ensures
            *final(self) == (match *old(self) {
                SourceKind::Toplevel(_) => SourceKind::Toplevel(None),
                other => other,
            }),
    {
        let is_window: bool = match self {
            SourceKind::Toplevel(_) => true,
            SourceKind::Output(_) => false,
        };
        if is_window {
            *self = SourceKind::Toplevel(None);
        }
    }
}

pub struct CaptureSource {
    pub id: ObjectId,
    pub client: u32,
    pub kind: SourceKind,
}

pub struct OutputSourceManagerGlobal;

impl OutputSourceManagerGlobal {
    pub fn interface(&self) -> (r: Interface)
        ensures
            r is ExtOutputImageCaptureSourceManagerV1,
    {
        Interface::ExtOutputImageCaptureSourceManagerV1
    }

    pub fn version(&self) -> (r: u32)
        ensures
            r == 1,
    {
        1
    }

    pub fn bind(&self, client: u32, id: ObjectId, version: u32) -> (r: OutputSourceManager)
        ensures
            r == (OutputSourceManager { id, client, version }),
    {
        OutputSourceManager { id, client, version }
    }
}

#[derive(Clone, Copy, Debug, PartialEq, Eq, Structural)]
pub struct OutputSourceManager {
    pub id: ObjectId,
    pub client: u32,
    pub version: u32,
}

impl OutputSourceManager {
    /// A source of an output, `found` under the id that the client gave. Whether the
    /// output is still lit matters only once a session uses it.
    pub fn create_source(&self, out: &mut Out, id: ObjectId, output: ObjectId, found: Option<String>) -> (r: Option<
        CaptureSource,
    >)
        ensures
            match found {
                None => r is None && told_invalid(*old(out), *final(out), self.client, output),
                Some(name) => r == Some(
                    CaptureSource { id, client: self.client, kind: SourceKind::Output(name) },
                ) && final(out).sent@ == old(out).sent@,
            },
    {
        match found {
            None => {
                out.invalid_object(self.client, output);
                None
            },
            Some(name) => Some(CaptureSource { id, client: self.client, kind: SourceKind::Output(name) }),
        }
    }
}

pub struct ToplevelSourceManagerGlobal;

impl ToplevelSourceManagerGlobal {
    pub fn interface(&self) -> (r: Interface)
        ensures
            r is ExtForeignToplevelImageCaptureSourceManagerV1,
    {
        Interface::ExtForeignToplevelImageCaptureSourceManagerV1
    }

    pub fn version(&self) -> (r: u32)
        ensures
            r == 1,
    {
        1
    }

    pub fn bind(&self, client: u32, id: ObjectId, version: u32) -> (r: ToplevelSourceManager)
        ensures
            r == (ToplevelSourceManager { id, client, version }),
    {
        ToplevelSourceManager { id, client, version }
    }
}

#[derive(Clone, Copy, Debug, PartialEq, Eq, Structural)]
pub struct ToplevelSourceManager {
    pub id: ObjectId,
    pub client: u32,
    pub version: u32,
}

impl ToplevelSourceManager {
    /// A source of a window. `found` is what the handle stands for: a closed handle
    /// has no window, and gives a dead source.
    pub fn create_source(&self, out: &mut Out, id: ObjectId, handle: ObjectId, found: Option<Option<u64>>) -> (r: Option<
        CaptureSource,
    >)
        ensures
            match found {
                None => r is None && told_invalid(*old(out), *final(out), self.client, handle),
                Some(w) => r == Some(
                    CaptureSource { id, client: self.client, kind: SourceKind::Toplevel(w) },
                ) && final(out).sent@ == old(out).sent@,
            },
    {
        match found {
            None => {
                out.invalid_object(self.client, handle);
                None
            },
            Some(w) => Some(CaptureSource { id, client: self.client, kind: SourceKind::Toplevel(w) }),
        }
    }
}

#[derive(Clone, Copy, Debug, PartialEq, Eq, Structural)]
pub enum FrameStatus {
    Unused,
    Capturing,
    Ready,
    Failed,
}

pub struct IccSession {
    /// never reused: the frame finds its session by it
    pub uid: u64,
    pub id: ObjectId,
    pub client: u32,
    pub version: u32,
    pub source: SourceKind,
    pub stopped: bool,
    /// the state of the frame slot; frame objects are thin shells over it
    pub status: FrameStatus,
    pub frame: Option<ObjectId>,
    /// identity of the attached buffer
    pub buffer: Option<u64>,
    /// the next capture completes at once: so it is at first, and after any failure
    pub force: bool,
    /// compose the pointer into captures
    pub paint_cursors: bool,
    /// one burst of constraints per size race, until the next attach
    pub size_debounce: bool,
}

pub open spec fn fresh_session(
    uid: u64,
    client: u32,
    id: ObjectId,
    version: u32,
    source: SourceKind,
    paint_cursors: bool,
) -> IccSession {
    IccSession {
        uid,
        id,
        client,
        version,
        source,
        stopped: false,
        status: FrameStatus::Unused,
        frame: None,
        buffer: None,
        force: true,
        paint_cursors,
        size_debounce: false,
    }
}

fn new_session(uid: u64, client: u32, id: ObjectId, version: u32, source: SourceKind, paint_cursors: bool) -> (r:
    IccSession)
    ensures
        r == fresh_session(uid, client, id, version, source, paint_cursors),
{
    IccSession {
        uid,
        id,
        client,
        version,
        source,
        stopped: false,
        status: FrameStatus::Unused,
        frame: None,
        buffer: None,
        force: true,
        paint_cursors,
        size_debounce: false,
    }
}

/// The full batch of constraints: the formats, the safe one first, the size, and
/// one done.
pub open spec fn constraints(client: u32, id: ObjectId, w: u32, h: u32) -> Seq<Sent> {
    seq![
        sent(client, id, Event::SessionShmFormat { format: WL_SHM_XRGB8888 }),
        sent(client, id, Event::SessionShmFormat { format: WL_SHM_ARGB8888 }),
        sent(client, id, Event::SessionBufferSize { width: w, height: h }),
        sent(client, id, Event::SessionDone),
    ]
}

/// What a frame that fails tells its client.
pub open spec fn failure(s: IccSession, reason: u32) -> Seq<Sent> {
    match s.frame {
        Some(f) => seq![sent(s.client, f, Event::FrameFailed { reason })],
        None => Seq::empty(),
    }
}

pub open spec fn with_failed_frame(s: IccSession) -> IccSession {
    IccSession { status: FrameStatus::Failed, force: true, ..s }
}

/// The session once it is over.
pub open spec fn ended(s: IccSession) -> IccSession {
    if s.stopped {
        s
    } else if s.status is Capturing {
        with_failed_frame(IccSession { stopped: true, ..s })
    } else {
        IccSession { stopped: true, ..s }
    }
}

/// What ending a session tells its client: first that it stopped, and only then that
/// the frame in flight failed.
pub open spec fn ending(s: IccSession) -> Seq<Sent> {
    if s.stopped {
        Seq::empty()
    } else {
        seq![sent(s.client, s.id, Event::SessionStopped)] + (if s.status is Capturing {
            failure(s, REASON_STOPPED)
        } else {
            Seq::empty()
        })
    }
}

/// A copy to carry out: which pixels, and where they go.
#[derive(Clone, Copy, Debug, PartialEq, Eq, Structural)]
pub struct CaptureJob {
    pub target: Target,
    pub paint_cursors: bool,
    /// the part that fits both the source and the buffer
    pub w: u32,
    pub h: u32,
    /// bytes from row to row of the captured pixels
    pub src_stride: u64,
    /// the byte the buffer starts at in its pool
    pub base: usize,
    /// bytes from row to row of the buffer
    pub stride: usize,
}

impl CaptureJob {
    pub open spec fn wf(self) -> bool {
        &&& 0 < self.w && 0 < self.h
        &&& self.w * 4 <= self.stride
        &&& self.w * 4 <= self.src_stride
        &&& self.base + self.stride * self.h <= usize::MAX
    }

    pub open spec fn row(self, i: int) -> RowCopy {
        RowCopy {
            from: (i * self.src_stride) as usize,
            len: (self.w * 4) as usize,
            to: (self.base + i * self.stride) as u64,
        }
    }

    /// Where each row goes. `captured` is how many bytes were captured.
    pub fn rows(&self, captured: usize) -> (r: Vec<RowCopy>)
        requires
            self.wf(),
            self.src_stride * (self.h - 1) + self.w * 4 <= captured,
        ensures
            r@.len() == self.h,
            forall|i: int| 0 <= i < self.h ==> #[trigger] r@[i] == self.row(i),
            forall|i: int| 0 <= i < self.h ==> (#[trigger] r@[i]).from + r@[i].len <= captured,
    {
        let mut v: Vec<RowCopy> = Vec::new();
        let len: usize = self.w as usize * 4;
        for i in 0..self.h
            invariant
                self.wf(),
                self.src_stride * (self.h - 1) + self.w * 4 <= captured,
                len == self.w * 4,
                v@.len() == i,
                forall|j: int| 0 <= j < i ==> #[trigger] v@[j] == self.row(j),
                forall|j: int| 0 <= j < i ==> (#[trigger] v@[j]).from + v@[j].len <= captured,
        {
            proof {
                let (s, d, k, h) = (self.src_stride as int, self.stride as int, i as int, self.h as int);
                assert(0 <= k * s <= s * (h - 1) && 0 <= k * d <= d * h) by (nonlinear_arith)
                    requires
                        0 <= k < h,
                        0 <= s,
                        0 <= d,
                ;
            }
            v.push(
                RowCopy {
                    from: (i as u64 * self.src_stride) as usize,
                    len,
                    to: (self.base + i as usize * self.stride) as u64,
                },
            );
        }
        v
    }
}

pub open spec fn lesser(a: u32, b: u32) -> u32 {
    if a <= b { a } else { b }
}

/// How serving a capture begins.
pub ghost struct ServeV {
    pub session: IccSession,
    pub events: Seq<Sent>,
    pub job: Option<CaptureJob>,
}

/// Serving a pending capture, up to the copy itself. `now` is what the source stands
/// for.
pub open spec fn serving(s: IccSession, now: Option<Resolved>, buf: Option<WlBuffer>) -> ServeV {
    if !(s.status is Capturing) || s.frame is None || buf is None {
        ServeV { session: s, events: Seq::empty(), job: None }
    } else {
        match now {
            None => ServeV { session: ended(s), events: ending(s), job: None },
            Some(r) => {
                let b = buf->0;
                let (bw, bh) = ((b.rect.x2 - b.rect.x1) as u32, (b.rect.y2 - b.rect.y1) as u32);
                let raced = bw != r.w || bh != r.h;
                let t = if raced { IccSession { size_debounce: true, ..s } } else { s };
                let told = if raced && !s.size_debounce {
                    constraints(s.client, s.id, r.w, r.h)
                } else {
                    Seq::empty()
                };
                let (cw, ch) = (lesser(bw, r.w), lesser(bh, r.h));
                let fails = ServeV {
                    session: with_failed_frame(t),
                    events: told + failure(s, REASON_UNKNOWN),
                    job: None,
                };
                if cw == 0 || ch == 0 || b.destroyed {
                    fails
                } else {
                    match b.storage {
                        BufferStorage::Dmabuf(_) => fails,
                        BufferStorage::Shm { offset, .. } => if b.stride < cw * 4 {
                            fails
                        } else {
                            ServeV {
                                session: t,
                                events: told,
                                job: Some(
                                    CaptureJob {
                                        target: r.target,
                                        paint_cursors: s.paint_cursors,
                                        w: cw,
                                        h: ch,
                                        src_stride: match r.target {
                                            Target::Out(_) => (cw * 4) as u64,
                                            Target::Win(_) => (r.w * 4) as u64,
                                        },
                                        base: offset,
                                        stride: b.stride as usize,
                                    },
                                ),
                            }
                        },
                    }
                }
            },
        }
    }
}

/// What a finished frame tells its client.
pub open spec fn readiness(client: u32, frame: ObjectId, bw: u32, bh: u32, nsec: u64) -> Seq<Sent> {
    let s = stamp_spec(nsec);
    seq![
        sent(client, frame, Event::FrameTransform { transform: 0 }),
        sent(client, frame, Event::FrameDamage { x: 0, y: 0, width: bw as i32, height: bh as i32 }),
        sent(client, frame, Event::FramePresented { sec_hi: s.sec_hi, sec_lo: s.sec_lo, nsec: s.nsec }),
        sent(client, frame, Event::FrameReady),
    ]
}

/// Reports a frame of that size as ready, all of it damaged.
pub fn send_ready(out: &mut Out, client: u32, frame: ObjectId, bw: u32, bh: u32, nsec: u64)
    ensures
        final(out).sent@ == old(out).sent@ + readiness(client, frame, bw, bh, nsec),
{
    let s: Stamp = stamp(nsec);
    out.event(client, frame, Event::FrameTransform { transform: 0 });
    out.event(client, frame, Event::FrameDamage { x: 0, y: 0, width: bw as i32, height: bh as i32 });
    out.event(client, frame, Event::FramePresented { sec_hi: s.sec_hi, sec_lo: s.sec_lo, nsec: s.nsec });
    out.event(client, frame, Event::FrameReady);
    assert(out.sent@ =~= old(out).sent@ + readiness(client, frame, bw, bh, nsec));
}

fn send_constraints(out: &mut Out, client: u32, id: ObjectId, w: u32, h: u32)
    ensures
        final(out).sent@ == old(out).sent@ + constraints(client, id, w, h),
{
    out.event(client, id, Event::SessionShmFormat { format: WL_SHM_XRGB8888 });
    out.event(client, id, Event::SessionShmFormat { format: WL_SHM_ARGB8888 });
    out.event(client, id, Event::SessionBufferSize { width: w, height: h });
    out.event(client, id, Event::SessionDone);
    assert(out.sent@ =~= old(out).sent@ + constraints(client, id, w, h));
}

impl IccSession {
    pub open spec fn size_spec(self, outs: Seq<Output>, windows: Seq<LiveWindow>) -> Option<(u32, u32)> {
        match self.source.resolved(outs, windows) {
            Some(r) if r.w > 0 && r.h > 0 => Some((r.w, r.h)),
            _ => None,
        }
    }

    /// The source's buffer size; `None` when the source is dead.
    pub fn current_size(&self, outs: &Vec<Output>, windows: &Vec<LiveWindow>) -> (r: Option<(u32, u32)>)
        ensures
            r == self.size_spec(outs@, windows@),
    {
        match self.source.resolve(outs, windows) {
            Some(r) => if r.w > 0 && r.h > 0 {
                Some((r.w, r.h))
            } else {
                None
            },
            None => None,
        }
    }

    fn fail_frame(&mut self, out: &mut Out, reason: u32)
        ensures
            *final(self) == with_failed_frame(*old(self)),
            final(out).sent@ == old(out).sent@ + failure(*old(self), reason),
    {
        match self.frame {
            Some(f) => out.event(self.client, f, Event::FrameFailed { reason }),
            None => {},
        }
        self.status = FrameStatus::Failed;
        self.force = true;
        assert(out.sent@ =~= old(out).sent@ + failure(*old(self), reason));
    }

    /// Ends the session, once.
    pub fn stop(&mut self, out: &mut Out)
        ensures
            *final(self) == ended(*old(self)),
            final(out).sent@ == old(out).sent@ + ending(*old(self)),
    {
        if self.stopped {
            assert(out.sent@ =~= old(out).sent@ + ending(*old(self)));
            return;
        }
        self.stopped = true;
        out.event(self.client, self.id, Event::SessionStopped);
        if self.status == FrameStatus::Capturing {
            self.fail_frame(out, REASON_STOPPED);
        }
        assert(out.sent@ =~= old(out).sent@ + ending(*old(self)));
    }

    /// Begins to serve the pending capture: looks the source up, re-states the
    /// constraints when its size changed, and hands out the copy to carry out. `buf`
    /// is the attached buffer.
    pub fn service(
        &mut self,
        out: &mut Out,
        outs: &Vec<Output>,
        windows: &Vec<LiveWindow>,
        buf: Option<&WlBuffer>,
    ) -> (r: Option<CaptureJob>)
        requires
            old(self).buffer is Some <==> buf is Some,
            buf matches Some(b) ==> old(self).buffer == Some(b.uid) && b.wf(),
        ensures
            ({
                let v = serving(
                    *old(self),
                    old(self).source.resolved(outs@, windows@),
                    match buf {
                        Some(b) => Some(*b),
                        None => None,
                    },
                );
                &&& *final(self) == v.session
                &&& final(out).sent@ == old(out).sent@ + v.events
                &&& r == v.job
            }),
            r matches Some(job) ==> job.wf() && final(self).status is Capturing && final(self).frame is Some,
    {
        let ghost start = out.sent@;
        assert(start + Seq::<Sent>::empty() =~= start);
        if self.status != FrameStatus::Capturing || self.frame.is_none() {
            return None;
        }
        let b: &WlBuffer = match buf {
            None => {
                return None;
            },
            Some(b) => b,
        };
        let now: Resolved = match self.source.resolve(outs, windows) {
            None => {
                self.stop(out);
                return None;
            },
            Some(r) => r,
        };
        let (bw, bh): (u32, u32) = (b.rect.width() as u32, b.rect.height() as u32);
        let ghost mut told: Seq<Sent> = Seq::empty();
        if bw != now.w || bh != now.h {
            if !self.size_debounce {
                send_constraints(out, self.client, self.id, now.w, now.h);
                proof {
                    told = constraints(self.client, self.id, now.w, now.h);
                }
            }
            self.size_debounce = true;
        }
        let cw: u32 = if bw <= now.w { bw } else { now.w };
        let ch: u32 = if bh <= now.h { bh } else { now.h };
        let ghost failed = told + failure(*self, REASON_UNKNOWN);
        assert(start + told + failure(*self, REASON_UNKNOWN) =~= start + failed);
        if cw == 0 || ch == 0 || b.destroyed {
            self.fail_frame(out, REASON_UNKNOWN);
            return None;
        }
        let base: usize = match b.shm_write_target() {
            None => {
                self.fail_frame(out, REASON_UNKNOWN);
                return None;
            },
            Some(base) => base,
        };
        if (b.stride as u64) < cw as u64 * 4 {
            self.fail_frame(out, REASON_UNKNOWN);
            return None;
        }
        proof {
            let (s, c, h) = (b.stride as int, ch as int, b.rect.y2 - b.rect.y1);
            assert(s * c <= s * h) by (nonlinear_arith)
                requires
                    0 <= s,
                    c <= h,
            ;
        }
        Some(
            CaptureJob {
                target: now.target,
                paint_cursors: self.paint_cursors,
                w: cw,
                h: ch,
                src_stride: match now.target {
                    Target::Out(_) => cw as u64 * 4,
                    Target::Win(_) => now.w as u64 * 4,
                },
                base,
                stride: b.stride as usize,
            },
        )
    }

    /// Reports how the copy went; `size` is that of the attached buffer.
    pub fn served(&mut self, out: &mut Out, ok: bool, size: (u32, u32), nsec: u64)
        requires
            old(self).frame is Some,
        ensures
            ok ==> *final(self) == (IccSession { status: FrameStatus::Ready, force: false, ..*old(self) })
                && final(out).sent@ == old(out).sent@ + readiness(
                old(self).client,
                old(self).frame->0,
                size.0,
                size.1,
                nsec,
            ),
            !ok ==> *final(self) == with_failed_frame(*old(self)) && final(out).sent@ == old(out).sent@ + failure(
                *old(self),
                REASON_UNKNOWN,
            ),
    {
        if !ok {
            self.fail_frame(out, REASON_UNKNOWN);
            return;
        }
        match self.frame {
            Some(f) => send_ready(out, self.client, f, size.0, size.1, nsec),
            None => {},
        }
        self.status = FrameStatus::Ready;
        self.force = false;
    }

    /// A frame of the session, one at a time.
    pub fn create_frame(&mut self, out: &mut Out, id: ObjectId) -> (r: Option<IccFrame>)
        ensures
            match old(self).frame {
                Some(_) => r is None && *final(self) == *old(self) && refused(
                    *old(out),
                    *final(out),
                    old(self).client,
                    old(self).id,
                    ERR_DUPLICATE_FRAME,
                    "the session already has a frame"@,
                ),
                None => {
                    &&& r == Some(
                        IccFrame {
                            id,
                            client: old(self).client,
                            version: old(self).version,
                            session: old(self).uid,
                        },
                    )
                    &&& *final(self) == (IccSession { frame: Some(id), ..*old(self) })
                    &&& final(out).sent@ == old(out).sent@
                },
            },
    {
        if self.frame.is_some() {
            out.protocol_error(self.client, self.id, ERR_DUPLICATE_FRAME, "the session already has a frame");
            return None;
        }
        self.frame = Some(id);
        Some(IccFrame { id, client: self.client, version: self.version, session: self.uid })
    }

    /// The client destroys the session. The frame object survives it, its capture
    /// cannot.
    pub fn destroy(&mut self, out: &mut Out)
        ensures
            old(self).status is Capturing ==> *final(self) == with_failed_frame(
                IccSession { stopped: true, ..*old(self) },
            ) && final(out).sent@ == old(out).sent@ + failure(*old(self), REASON_STOPPED),
            !(old(self).status is Capturing) ==> *final(self) == (IccSession { stopped: true, ..*old(self) })
                && final(out).sent@ == old(out).sent@,
    {
        if self.status == FrameStatus::Capturing {
            self.fail_frame(out, REASON_STOPPED);
        }
        self.stopped = true;
    }

    /// The client is gone.
    pub fn break_loops(&mut self)
        ensures
            final(self).frame is None,
            final(self).buffer is None,
            *final(self) == (IccSession {
                frame: None,
                buffer: None,
                source: match old(self).source {
                    SourceKind::Toplevel(_) => SourceKind::Toplevel(None),
                    other => other,
                },
                ..*old(self)
            }),
    {
        self.frame = None;
        self.buffer = None;
        self.source.let_go();
    }
}

pub struct IccManagerGlobal;

impl IccManagerGlobal {
    pub fn interface(&self) -> (r: Interface)
        ensures
            r is ExtImageCopyCaptureManagerV1,
    {
        Interface::ExtImageCopyCaptureManagerV1
    }

    pub fn version(&self) -> (r: u32)
        ensures
            r == 1,
    {
        1
    }

    pub fn bind(&self, client: u32, id: ObjectId, version: u32) -> (r: IccManager)
        ensures
            r == (IccManager { id, client, version }),
    {
        IccManager { id, client, version }
    }
}

#[derive(Clone, Copy, Debug, PartialEq, Eq, Structural)]
pub struct IccManager {
    pub id: ObjectId,
    pub client: u32,
    pub version: u32,
}

impl IccManager {
    /// A session on a source, `found` under the id that the client gave. It starts
    /// with the constraints; on a dead source it is stopped instead. `uid` is a
    /// number never used before.
    pub fn create_session(
        &self,
        out: &mut Out,
        id: ObjectId,
        source: ObjectId,
        found: Option<&CaptureSource>,
        options: u32,
        uid: u64,
        outs: &Vec<Output>,
        windows: &Vec<LiveWindow>,
    ) -> (r: Option<IccSession>)
        ensures
            if options > 1 {
                &&& r is None
                &&& refused(
                    *old(out),
                    *final(out),
                    self.client,
                    self.id,
                    ERR_INVALID_OPTION,
                    "unknown option bits"@,
                )
            } else {
                match found {
                    None => r is None && told_invalid(*old(out), *final(out), self.client, source),
                    Some(src) => {
                        let s = fresh_session(uid, self.client, id, self.version, src.kind, options == 1);
                        match s.size_spec(outs@, windows@) {
                            Some((w, h)) => {
                                &&& r == Some(s)
                                &&& final(out).sent@ == old(out).sent@ + constraints(self.client, id, w, h)
                            },
                            None => {
                                &&& r == Some(IccSession { stopped: true, ..s })
                                &&& final(out).sent@ == old(out).sent@.push(
                                    sent(self.client, id, Event::SessionStopped),
                                )
                            },
                        }
                    },
                }
            },
    {
        assert((options & !1u32 != 0) == (options > 1)) by (bit_vector);
        if options & !OPT_PAINT_CURSORS != 0 {
            out.protocol_error(self.client, self.id, ERR_INVALID_OPTION, "unknown option bits");
            return None;
        }
        let src: &CaptureSource = match found {
            None => {
                out.invalid_object(self.client, source);
                return None;
            },
            Some(s) => s,
        };
        assert(options <= 1 ==> (options & 1u32 != 0) == (options == 1)) by (bit_vector);
        let mut sess: IccSession = new_session(
            uid,
            self.client,
            id,
            self.version,
            src.kind.snapshot(),
            options & OPT_PAINT_CURSORS != 0,
        );
        match sess.current_size(outs, windows) {
            Some((w, h)) => {
                send_constraints(out, self.client, id, w, h);
            },
            None => {
                sess.stopped = true;
                out.event(self.client, id, Event::SessionStopped);
            },
        }
        Some(sess)
    }

    /// A cursor session on a source. `pointer_found` says whether the pointer id
    /// names anything.
    pub fn create_pointer_cursor_session(
        &self,
        out: &mut Out,
        id: ObjectId,
        source: ObjectId,
        found: Option<&CaptureSource>,
        pointer: ObjectId,
        pointer_found: bool,
    ) -> (r: Option<IccCursorSession>)
        ensures
            match found {
                None => r is None && told_invalid(*old(out), *final(out), self.client, source),
                Some(src) => if !pointer_found {
                    r is None && told_invalid(*old(out), *final(out), self.client, pointer)
                } else {
                    &&& r == Some(
                        IccCursorSession {
                            id,
                            client: self.client,
                            version: self.version,
                            source: src.kind,
                            have_session: false,
                        },
                    )
                    &&& final(out).sent@ == old(out).sent@
                },
            },
    {
        match found {
            None => {
                out.invalid_object(self.client, source);
                None
            },
            Some(src) => if !pointer_found {
                out.invalid_object(self.client, pointer);
                None
            } else {
                Some(
                    IccCursorSession {
                        id,
                        client: self.client,
                        version: self.version,
                        source: src.kind.snapshot(),
                        have_session: false,
                    },
                )
            },
        }
    }
}

#[derive(Clone, Copy, Debug, PartialEq, Eq, Structural)]
pub struct IccFrame {
    pub id: ObjectId,
    pub client: u32,
    pub version: u32,
    /// identity of its session
    pub session: u64,
}

/// What a capture request leads to.
#[derive(Clone, Copy, Debug, PartialEq, Eq, Structural)]
pub enum Capture {
    /// It ended: refused, or the frame failed.
    Over,
    /// It waits for the content to change.
    Waits,
    /// It is served at once.
    Serve,
}

impl IccFrame {
    pub open spec fn spent(self, before: Out, after: Out) -> bool {
        refused(before, after, self.client, self.id, ERR_ALREADY_CAPTURED, "the frame was already captured"@)
    }

    /// The frame object goes, and frees the slot if it is the session's frame.
    pub fn destroy(&self, sess: &mut IccSession)
        requires
            self.session == old(sess).uid,
        ensures
            *final(sess) == (if old(sess).frame == Some(self.id) {
                IccSession { frame: None, buffer: None, status: FrameStatus::Unused, ..*old(sess) }
            } else {
                *old(sess)
            }),
    {
        let mine: bool = match sess.frame {
            Some(f) => f.0 == self.id.0,
            None => false,
        };
        if mine {
            sess.frame = None;
            sess.buffer = None;
            sess.status = FrameStatus::Unused;
        }
    }

    /// Attaches a buffer, `found` under the id that the client gave. The client
    /// reacted to the last burst of constraints: the next race may send another.
    pub fn attach_buffer(&self, out: &mut Out, sess: &mut IccSession, buffer: ObjectId, found: Option<u64>)
        requires
            self.session == old(sess).uid,
        ensures
            if !(old(sess).status is Unused) {
                *final(sess) == *old(sess) && self.spent(*old(out), *final(out))
            } else {
                match found {
                    None => *final(sess) == *old(sess) && told_invalid(*old(out), *final(out), self.client, buffer),
                    Some(uid) => *final(sess) == (IccSession {
                        buffer: Some(uid),
                        size_debounce: false,
                        ..*old(sess)
                    }) && final(out).sent@ == old(out).sent@,
                }
            },
    {
        if sess.status != FrameStatus::Unused {
            out.protocol_error(self.client, self.id, ERR_ALREADY_CAPTURED, "the frame was already captured");
            return;
        }
        match found {
            None => {
                out.invalid_object(self.client, buffer);
            },
            Some(uid) => {
                sess.buffer = Some(uid);
                sess.size_debounce = false;
            },
        }
    }

    /// Damage is a hint that nothing needs: every copy writes the whole buffer.
    pub fn damage_buffer(&self, out: &mut Out, sess: &IccSession, x: i32, y: i32, width: i32, height: i32)
        requires
            self.session == sess.uid,
        ensures
            if !(sess.status is Unused) {
                self.spent(*old(out), *final(out))
            } else if x < 0 || y < 0 || width <= 0 || height <= 0 {
                refused(
                    *old(out),
                    *final(out),
                    self.client,
                    self.id,
                    ERR_INVALID_BUFFER_DAMAGE,
                    "invalid damage rectangle"@,
                )
            } else {
                final(out).sent@ == old(out).sent@
            },
    {
        if sess.status != FrameStatus::Unused {
            out.protocol_error(self.client, self.id, ERR_ALREADY_CAPTURED, "the frame was already captured");
            return;
        }
        if x < 0 || y < 0 || width <= 0 || height <= 0 {
            out.protocol_error(self.client, self.id, ERR_INVALID_BUFFER_DAMAGE, "invalid damage rectangle");
        }
    }

    /// Captures into the attached buffer. On a stopped session the frame just fails:
    /// the stop can race the request.
    pub fn capture(&self, out: &mut Out, sess: &mut IccSession) -> (r: Capture)
        requires
            self.session == old(sess).uid,
        ensures
            if !(old(sess).status is Unused) {
                r is Over && *final(sess) == *old(sess) && self.spent(*old(out), *final(out))
            } else if old(sess).buffer is None {
                r is Over && *final(sess) == *old(sess) && refused(
                    *old(out),
                    *final(out),
                    self.client,
                    self.id,
                    ERR_NO_BUFFER,
                    "capture without an attached buffer"@,
                )
            } else if old(sess).stopped {
                r is Over && *final(sess) == with_failed_frame(*old(sess)) && final(out).sent@ == old(out).sent@
                    + failure(*old(sess), REASON_STOPPED)
            } else {
                &&& *final(sess) == (IccSession { status: FrameStatus::Capturing, ..*old(sess) })
                &&& final(out).sent@ == old(out).sent@
                &&& r == (if old(sess).force { Capture::Serve } else { Capture::Waits })
            },
    {
        if sess.status != FrameStatus::Unused {
            out.protocol_error(self.client, self.id, ERR_ALREADY_CAPTURED, "the frame was already captured");
            return Capture::Over;
        }
        if sess.buffer.is_none() {
            out.protocol_error(self.client, self.id, ERR_NO_BUFFER, "capture without an attached buffer");
            return Capture::Over;
        }
        if sess.stopped {
            sess.fail_frame(out, REASON_STOPPED);
            return Capture::Over;
        }
        sess.status = FrameStatus::Capturing;
        if sess.force {
            Capture::Serve
        } else {
            Capture::Waits
        }
    }

    /// The client is gone.
    pub fn break_loops(&self, sess: &mut IccSession)
        requires
            self.session == old(sess).uid,
        ensures
            *final(sess) == (IccSession { frame: None, buffer: None, ..*old(sess) }),
    {
        sess.frame = None;
        sess.buffer = None;
    }
}

pub struct IccCursorSession {
    pub id: ObjectId,
    pub client: u32,
    pub version: u32,
    pub source: SourceKind,
    pub have_session: bool,
}

impl IccCursorSession {
    /// The capture session of the cursor, once. Cursors are not captured: it is
    /// stopped at birth rather than left to stall its client.
    pub fn get_capture_session(&mut self, out: &mut Out, id: ObjectId, uid: u64) -> (r: Option<IccSession>)
        ensures
            *final(self) == (IccCursorSession { have_session: true, ..*old(self) }),
            old(self).have_session ==> r is None && refused(
                *old(out),
                *final(out),
                old(self).client,
                old(self).id,
                ERR_DUPLICATE_SESSION,
                "the cursor session already has a capture session"@,
            ),
            !old(self).have_session ==> {
                &&& r == Some(
                    IccSession {
                        stopped: true,
                        ..fresh_session(uid, old(self).client, id, old(self).version, old(self).source, false)
                    },
                )
                &&& final(out).sent@ == old(out).sent@.push(sent(old(self).client, id, Event::SessionStopped))
            },
    {
        if self.have_session {
            out.protocol_error(
                self.client,
                self.id,
                ERR_DUPLICATE_SESSION,
                "the cursor session already has a capture session",
            );
            return None;
        }
        self.have_session = true;
        let mut sess: IccSession = new_session(uid, self.client, id, self.version, self.source.snapshot(), false);
        sess.stopped = true;
        out.event(self.client, id, Event::SessionStopped);
        Some(sess)
    }
}

/// Whether a surface is in a stack.
pub open spec fn in_tree(n: SurfaceNode, uid: u64) -> bool
    decreases n, 0nat,
{
    ||| n.info.uid == uid
    ||| in_subs(n.below@, n.below@.len(), uid)
    ||| in_subs(n.above@, n.above@.len(), uid)
}

pub open spec fn in_subs(subs: Seq<SubNode>, n: nat, uid: u64) -> bool
    decreases subs, n,
{
    if n == 0 || n > subs.len() {
        false
    } else {
        in_subs(subs, (n - 1) as nat, uid) || in_tree(subs[n - 1].surface, uid)
    }
}

/// Whether the surface is in the stack.
pub fn tree_contains(n: &SurfaceNode, uid: u64) -> (r: bool)
    ensures
        r == in_tree(*n, uid),
    decreases n, 0nat,
{
    if n.info.uid == uid {
        return true;
    }
    if subs_contain(&n.below, uid) {
        return true;
    }
    subs_contain(&n.above, uid)
}

proof fn in_subs_grows(subs: Seq<SubNode>, k: nat, n: nat, uid: u64)
    requires
        k <= n <= subs.len(),
        in_subs(subs, k, uid),
    ensures
        in_subs(subs, n, uid),
    decreases n,
{
    if k < n {
        in_subs_grows(subs, k, (n - 1) as nat, uid);
    }
}

fn subs_contain(subs: &Vec<SubNode>, uid: u64) -> (r: bool)
    ensures
        r == in_subs(subs@, subs@.len(), uid),
    decreases subs@, subs@.len(),
{
    for i in 0..subs.len()
        invariant
            !in_subs(subs@, i as nat, uid),
    {
        if tree_contains(&subs[i].surface, uid) {
            proof {
                assert(in_subs(subs@, (i + 1) as nat, uid));
                in_subs_grows(subs@, (i + 1) as nat, subs@.len(), uid);
            }
            return true;
        }
    }
    false
}

/// Sessions that a frame of an output completes.
pub open spec fn awaits_output(name: Seq<char>) -> spec_fn(IccSession) -> bool {
    |s: IccSession| !s.stopped && s.status is Capturing && follows_output(name)(s)
}

pub open spec fn follows_output(name: Seq<char>) -> spec_fn(IccSession) -> bool {
    |s: IccSession| s.source matches SourceKind::Output(n) && n@ == name
}

pub open spec fn follows_window(uid: u64) -> spec_fn(IccSession) -> bool {
    |s: IccSession| s.source == SourceKind::Toplevel(Some(uid))
}

/// Sessions that new pixels of a surface complete.
pub open spec fn awaits_surface(windows: Seq<LiveWindow>, surface: u64) -> spec_fn(IccSession) -> bool {
    |s: IccSession|
        !s.stopped && s.status is Capturing && (s.source matches SourceKind::Toplevel(Some(w)) && match first_slot(
            windows,
            is_window(w),
        ) {
            Some(k) => in_tree(windows[k].tree, surface),
            None => false,
        })
}

/// The slots whose element passes, in order.
pub open spec fn slots_of(list: Seq<IccSession>, p: spec_fn(IccSession) -> bool) -> Seq<usize>
    decreases list.len(),
{
    if list.len() == 0 {
        Seq::empty()
    } else {
        let front = slots_of(list.drop_last(), p);
        if p(list.last()) {
            front.push((list.len() - 1) as usize)
        } else {
            front
        }
    }
}

fn is_output(s: &IccSession, name: &str) -> (r: bool)
    ensures
        r == follows_output(name@)(*s),
{
    match &s.source {
        SourceKind::Output(n) => same_text(n.as_str(), name),
        SourceKind::Toplevel(_) => false,
    }
}

/// An output presented: the sessions to serve, as its content changed.
pub fn output_presented(list: &Vec<IccSession>, name: &str) -> (r: Vec<usize>)
    ensures
        r@ == slots_of(list@, awaits_output(name@)),
{
    let mut v: Vec<usize> = Vec::new();
    let n: usize = list.len();
    for i in 0..n
        invariant
            n == list@.len(),
            v@ == slots_of(list@.take(i as int), awaits_output(name@)),
    {
        assert(list@.take(i + 1).drop_last() =~= list@.take(i as int));
        if !list[i].stopped && list[i].status == FrameStatus::Capturing && is_output(&list[i], name) {
            v.push(i);
        }
    }
    assert(list@.take(n as int) =~= list@);
    v
}

fn is_above(s: &IccSession, windows: &Vec<LiveWindow>, surface: u64) -> (r: bool)
    ensures
        r == (s.source matches SourceKind::Toplevel(Some(w)) && match first_slot(windows@, is_window(w)) {
            Some(k) => in_tree(windows@[k].tree, surface),
            None => false,
        }),
{
    match &s.source {
        SourceKind::Output(_) => false,
        SourceKind::Toplevel(t) => match t {
            None => false,
            Some(u) => {
                let uid: u64 = *u;
                match find(
                    windows,
                    |x: &LiveWindow| -> (b: bool) ensures b == (x.uid == uid) { x.uid == uid },
                    Ghost(is_window(uid)),
                ) {
                    Some(k) => tree_contains(&windows[k].tree, surface),
                    None => false,
                }
            },
        },
    }
}

/// A surface committed pixels: the sessions to serve, those on the window above it,
/// wherever its workspace is.
pub fn content_changed(list: &Vec<IccSession>, windows: &Vec<LiveWindow>, surface: u64) -> (r: Vec<usize>)
    ensures
        r@ == slots_of(list@, awaits_surface(windows@, surface)),
{
    let mut v: Vec<usize> = Vec::new();
    let n: usize = list.len();
    for i in 0..n
        invariant
            n == list@.len(),
            v@ == slots_of(list@.take(i as int), awaits_surface(windows@, surface)),
    {
        assert(list@.take(i + 1).drop_last() =~= list@.take(i as int));
        if !list[i].stopped && list[i].status == FrameStatus::Capturing && is_above(&list[i], windows, surface) {
            v.push(i);
        }
    }
    assert(list@.take(n as int) =~= list@);
    v
}

/// The sessions, with those that pass ended.
pub open spec fn all_ended(list: Seq<IccSession>, p: spec_fn(IccSession) -> bool) -> Seq<IccSession> {
    Seq::new(list.len(), |i: int| if p(list[i]) { ended(list[i]) } else { list[i] })
}

/// What ending the sessions that pass tells their clients, in order.
pub open spec fn endings(list: Seq<IccSession>, p: spec_fn(IccSession) -> bool) -> Seq<Sent>
    decreases list.len(),
{
    if list.len() == 0 {
        Seq::empty()
    } else {
        endings(list.drop_last(), p) + (if p(list.last()) { ending(list.last()) } else { Seq::empty() })
    }
}

fn end_where(
    list: &mut Vec<IccSession>,
    out: &mut Out,
    test: impl Fn(&IccSession) -> bool,
    Ghost(p): Ghost<spec_fn(IccSession) -> bool>,
)
    requires
        forall|x: IccSession| #[trigger] call_requires(test, (&x,)),
        forall|x: IccSession, b: bool| #[trigger] call_ensures(test, (&x,), b) ==> b == p(x),
    ensures
        final(list)@ == all_ended(old(list)@, p),
        final(out).sent@ == old(out).sent@ + endings(old(list)@, p),
{
    let ghost all = list@;
    let ghost start = out.sent@;
    let n: usize = list.len();
    assert(start + endings(all.take(0), p) =~= start);
    for i in 0..n
        invariant
            n == all.len(),
            all == old(list)@,
            start == old(out).sent@,
            forall|x: IccSession| #[trigger] call_requires(test, (&x,)),
            forall|x: IccSession, b: bool| #[trigger] call_ensures(test, (&x,), b) ==> b == p(x),
            list@.len() == n,
            forall|j: int| i <= j < n ==> list@[j] == all[j],
            forall|j: int| 0 <= j < i ==> #[trigger] list@[j] == all_ended(all, p)[j],
            out.sent@ == start + endings(all.take(i as int), p),
    {
        proof {
            assert(all.take(i + 1).drop_last() =~= all.take(i as int));
            assert(all.take(i + 1).last() == all[i as int]);
        }
        let ghost mid = out.sent@;
        if test(&list[i]) {
            list[i].stop(out);
            assert(out.sent@ =~= start + endings(all.take(i + 1), p));
        } else {
            assert(out.sent@ =~= start + endings(all.take(i + 1), p));
        }
    }
    assert(all.take(n as int) =~= all);
    assert(list@ =~= all_ended(all, p));
}

/// A window is gone: sessions on it end.
pub fn window_unmapped(list: &mut Vec<IccSession>, out: &mut Out, window: u64)
    ensures
        final(list)@ == all_ended(old(list)@, follows_window(window)),
        final(out).sent@ == old(out).sent@ + endings(old(list)@, follows_window(window)),
{
    end_where(
        list,
        out,
        |s: &IccSession| -> (b: bool) ensures b == follows_window(window)(*s) { is_window_of(s, window) },
        Ghost(follows_window(window)),
    );
}

fn is_window_of(s: &IccSession, window: u64) -> (r: bool)
    ensures
        r == follows_window(window)(*s),
{
    match &s.source {
        SourceKind::Output(_) => false,
        SourceKind::Toplevel(t) => match t {
            None => false,
            Some(u) => *u == window,
        },
    }
}

/// An output is gone: sessions on it end.
pub fn output_removed(list: &mut Vec<IccSession>, out: &mut Out, name: &str)
    ensures
        final(list)@ == all_ended(old(list)@, follows_output(name@)),
        final(out).sent@ == old(out).sent@ + endings(old(list)@, follows_output(name@)),
{
    end_where(
        list,
        out,
        |s: &IccSession| -> (b: bool) ensures b == follows_output(name@)(*s) { is_output(s, name) },
        Ghost(follows_output(name@)),
    );
}

pub open spec fn not_of(client: u32) -> spec_fn(IccSession) -> bool {
    |s: IccSession| s.client != client
}

/// A client is gone, and its sessions with it.
pub fn drop_client(list: &mut Vec<IccSession>, client: u32)
    ensures
        final(list)@ == old(list)@.filter(not_of(client)),
{
    retain(
        list,
        |s: &IccSession| -> (b: bool) ensures b == (s.client != client) { s.client != client },
        Ghost(not_of(client)),
    );
}

pub open spec fn not_session(client: u32, id: ObjectId) -> spec_fn(IccSession) -> bool {
    |s: IccSession| !(s.id == id && s.client == client)
}

/// The client destroys the session at `k`: it leaves the list, and comes back for
/// the frame object that survives it.
pub fn destroy_session(list: &mut Vec<IccSession>, k: usize, out: &mut Out) -> (gone: IccSession)
    requires
        k < old(list)@.len(),
    ensures
        final(list)@ == old(list)@.filter(not_session(old(list)@[k as int].client, old(list)@[k as int].id)),
        ({
            let s = old(list)@[k as int];
            let ended = IccSession { stopped: true, ..s };
            if s.status is Capturing {
                gone == with_failed_frame(ended) && final(out).sent@ == old(out).sent@ + failure(s, REASON_STOPPED)
            } else {
                gone == ended && final(out).sent@ == old(out).sent@
            }
        }),
{
    let mut gone = list.remove(k);
    let client: u32 = gone.client;
    let id: ObjectId = gone.id;
    gone.destroy(out);
    retain(
        list,
        |s: &IccSession| -> (b: bool) ensures b == !(s.id == id && s.client == client) { !(s.id.0 == id.0 && s.client == client) },
        Ghost(not_session(client, id)),
    );
    proof {
        let before = old(list)@;
        let p = not_session(client, id);
        let head = before.take(k as int);
        let tail = before.skip(k + 1);
        let it = seq![before[k as int]];
        assert(before =~= head + (it + tail));
        assert(before.remove(k as int) =~= head + tail);
        Seq::filter_distributes_over_add(head, it + tail, p);
        Seq::filter_distributes_over_add(it, tail, p);
        Seq::filter_distributes_over_add(head, tail, p);
        reveal_with_fuel(Seq::filter, 2);
        assert(!p(it.last()));
        assert(it.drop_last().len() == 0);
        assert(it.filter(p) =~= Seq::<IccSession>::empty());
        assert(it.filter(p) + tail.filter(p) =~= tail.filter(p));
    }
    gone
}

/// A burst of constraints ends in its one done.
pub proof fn bursts_end_in_one_done(client: u32, id: ObjectId, w: u32, h: u32, i: int)
    requires
        0 <= i < constraints(client, id, w, h).len(),
    ensures
        (constraints(client, id, w, h)[i].event is SessionDone) <==> i == constraints(client, id, w, h).len() - 1,
{
}

/// A dying session says that it stopped before its frame fails, and says it once.
pub proof fn stopped_comes_before_failure(s: IccSession, i: int)
    requires
        !s.stopped,
        0 <= i < ending(s).len(),
    ensures
        (ending(s)[i].event is SessionStopped) <==> i == 0,
        (ending(s)[i].event is FrameFailed) <==> i > 0,
        ending(ended(s)).len() == 0,
        !(ended(s).status is Capturing),
{
}

/// A size that changed under the client never fails the frame: as long as source and
/// buffer overlap, and the buffer can be written, the copy is made of the overlap,
/// and the constraints are stated again, once until the next attach.
pub proof fn size_races_restate_the_constraints(s: IccSession, now: Resolved, buf: WlBuffer)
    requires
        s.status is Capturing,
        s.frame is Some,
        buf.wf(),
        !buf.destroyed,
        buf.storage is Shm,
        now.w > 0 && now.h > 0,
        buf.rect.x2 > buf.rect.x1 && buf.rect.y2 > buf.rect.y1,
        buf.stride >= (buf.rect.x2 - buf.rect.x1) * 4,
        now.w != buf.rect.x2 - buf.rect.x1 || now.h != buf.rect.y2 - buf.rect.y1,
    ensures
        ({
            let v = serving(s, Some(now), Some(buf));
            let again = serving(v.session, Some(now), Some(buf));
            &&& v.job is Some
            &&& v.job->0.w <= now.w && v.job->0.h <= now.h
            &&& v.job->0.w <= buf.rect.x2 - buf.rect.x1 && v.job->0.h <= buf.rect.y2 - buf.rect.y1
            &&& v.events == (if s.size_debounce {
                Seq::empty()
            } else {
                constraints(s.client, s.id, now.w, now.h)
            })
            &&& again.events.len() == 0
            &&& again.job == v.job
        }),
{
}

} // verus!
