//! Shared memory: pools, buffers, and when a buffer is given back.
use crate::list::find;
use crate::output::first_slot;
use crate::protocol::events::{refused, sent, Event, Out};
use crate::protocol::interfaces::Interface;
use crate::protocol::ObjectId;
use crate::rect::Rect;
use crate::text::{decimal_text, digits, hex_digits, hex_text};
use vstd::prelude::*;

verus! {

pub const INVALID_FORMAT: u32 = 0;

pub const INVALID_STRIDE: u32 = 1;

pub const INVALID_FD: u32 = 2;

/// A pixel format.
#[derive(Clone, Copy, Debug, PartialEq, Eq, Structural)]
pub struct Format {
    pub drm: u32,
    /// how wl_shm names it, where that is not the drm code
    pub wl_id: Option<u32>,
    pub bytes_per_pixel: u32,
    pub alpha: bool,
}

impl Format {
    pub open spec fn wire_spec(self) -> u32 {
        match self.wl_id {
            Some(w) => w,
            None => self.drm,
        }
    }

    /// How the format is named on the wire.
    pub fn wire(&self) -> (r: u32)
        ensures
            r == self.wire_spec(),
    {
        match self.wl_id {
            Some(w) => w,
            None => self.drm,
        }
    }

    pub fn has_alpha(&self) -> (r: bool)
        ensures
            r == self.alpha,
    {
        self.alpha
    }
}

pub open spec fn wired(wl: u32) -> spec_fn(Format) -> bool {
    |f: Format| f.wire_spec() == wl
}

/// The format of that wire name.
pub fn shm_format_by_wl(formats: &Vec<Format>, wl: u32) -> (r: Option<Format>)
    ensures
        match first_slot(formats@, wired(wl)) {
            None => r is None,
            Some(k) => r == Some(formats@[k]),
        },
{
    match find(
        formats,
        |f: &Format| -> (b: bool) ensures b == (f.wire_spec() == wl) { f.wire() == wl },
        Ghost(wired(wl)),
    ) {
        None => None,
        Some(k) => Some(formats[k]),
    }
}

pub struct WlShmGlobal;

/// The announcements of the formats.
pub open spec fn announced(client: u32, id: ObjectId, formats: Seq<Format>) -> Seq<crate::protocol::events::Sent> {
    Seq::new(formats.len(), |i: int| sent(client, id, Event::ShmFormat { format: formats[i].wire_spec() }))
}

impl WlShmGlobal {
    pub fn interface(&self) -> (r: Interface)
        ensures
            r is WlShm,
    {
        Interface::WlShm
    }

    pub fn version(&self) -> (r: u32)
        ensures
            r == 2,
    {
        2
    }

    /// A new binding is told every format.
    pub fn bind(&self, out: &mut Out, client: u32, id: ObjectId, version: u32, formats: &Vec<Format>) -> (r: WlShm)
        ensures
            r == (WlShm { id, client, version }),
            final(out).sent@ == old(out).sent@ + announced(client, id, formats@),
    {
        let ghost start = out.sent@;
        for i in 0..formats.len()
            invariant
                start == old(out).sent@,
                out.sent@ == start + announced(client, id, formats@.take(i as int)),
        {
            proof {
                assert(announced(client, id, formats@.take(i + 1)) =~= announced(
                    client,
                    id,
                    formats@.take(i as int),
                ).push(sent(client, id, Event::ShmFormat { format: formats@[i as int].wire_spec() })));
            }
            out.event(client, id, Event::ShmFormat { format: formats[i].wire() });
        }
        assert(formats@.take(formats@.len() as int) =~= formats@);
        WlShm { id, client, version }
    }
}

#[derive(Clone, Copy, Debug, PartialEq, Eq, Structural)]
pub struct WlShm {
    pub id: ObjectId,
    pub client: u32,
    pub version: u32,
}

impl WlShm {
    /// A pool of `size` bytes. `mapped` is what mapping them came to: whether the
    /// file is sealed against shrinking, or why it cannot be mapped.
    pub fn create_pool(&self, out: &mut Out, id: ObjectId, size: i32, mapped: Result<bool, String>) -> (r: Option<
        WlShmPool,
    >)
        ensures
            size <= 0 ==> r is None && refused(
                *old(out),
                *final(out),
                self.client,
                self.id,
                INVALID_STRIDE,
                "pool sizes must be positive"@,
            ),
            size > 0 ==> match mapped {
                Err(e) => r is None && refused(*old(out), *final(out), self.client, self.id, INVALID_FD, e@),
                Ok(sealed) => r == Some(
                    WlShmPool { id, client: self.client, requested: size as usize, sealed },
                ) && final(out).sent@ == old(out).sent@,
            },
    {
        if size <= 0 {
            out.protocol_error(self.client, self.id, INVALID_STRIDE, "pool sizes must be positive");
            return None;
        }
        match mapped {
            Err(e) => {
                out.protocol_error(self.client, self.id, INVALID_FD, e.as_str());
                None
            },
            Ok(sealed) => Some(WlShmPool { id, client: self.client, requested: size as usize, sealed }),
        }
    }
}

#[derive(Clone, Copy, Debug, PartialEq, Eq, Structural)]
pub struct WlShmPool {
    pub id: ObjectId,
    pub client: u32,
    /// the size the client declared
    pub requested: usize,
    pub sealed: bool,
}

/// What a buffer is asked to be.
#[derive(Clone, Copy, Debug)]
pub struct BufferAsk {
    pub id: ObjectId,
    pub offset: i32,
    pub width: i32,
    pub height: i32,
    pub stride: i32,
    pub format: u32,
}

/// What a buffer breaks, and the words for it.
pub open spec fn buffer_fault(pool: WlShmPool, formats: Seq<Format>, a: BufferAsk) -> Option<(u32, Seq<char>)> {
    match first_slot(formats, wired(a.format)) {
        None => Some((INVALID_FORMAT, "format 0x"@ + hex_digits(a.format as nat) + " is not supported"@)),
        Some(k) => if a.offset < 0 || a.width <= 0 || a.height <= 0 || a.stride < 0 {
            Some((INVALID_STRIDE, "buffer parameters must be positive"@))
        } else if a.stride < a.width * formats[k].bytes_per_pixel {
            Some(
                (
                    INVALID_STRIDE,
                    "stride "@ + digits(a.stride as nat) + " is too small for width "@ + digits(a.width as nat),
                ),
            )
        } else if a.offset + a.stride * a.height > pool.requested {
            Some((INVALID_STRIDE, "buffer extends past the pool"@))
        } else {
            None
        },
    }
}

pub open spec fn buffer_made(pool: WlShmPool, format: Format, a: BufferAsk, uid: u64) -> WlBuffer {
    WlBuffer {
        id: a.id,
        uid,
        client: pool.client,
        rect: Rect { x1: 0, y1: 0, x2: a.width, y2: a.height },
        format,
        stride: a.stride,
        storage: BufferStorage::Shm { offset: a.offset as usize, sealed: pool.sealed },
        destroyed: false,
    }
}

impl WlShmPool {
    /// A buffer in the pool. Its end is held against the size the client declared;
    /// `uid` is a number never used before.
    pub fn create_buffer(&self, out: &mut Out, formats: &Vec<Format>, a: BufferAsk, uid: u64) -> (r: Option<WlBuffer>)
        ensures
            match buffer_fault(*self, formats@, a) {
                Some((code, text)) => r is None && refused(*old(out), *final(out), self.client, self.id, code, text),
                None => {
                    &&& r == Some(
                        buffer_made(*self, formats@[first_slot(formats@, wired(a.format))->0], a, uid),
                    )
                    &&& r->0.wf()
                    &&& final(out).sent@ == old(out).sent@
                },
            },
    {
        let format: Format = match shm_format_by_wl(formats, a.format) {
            None => {
                let shown: String = hex_text(a.format as u64);
                let text: String = "format 0x".to_owned().concat(shown.as_str()).concat(" is not supported");
                out.protocol_error(self.client, self.id, INVALID_FORMAT, text.as_str());
                return None;
            },
            Some(f) => f,
        };
        if a.offset < 0 || a.width <= 0 || a.height <= 0 || a.stride < 0 {
            out.protocol_error(self.client, self.id, INVALID_STRIDE, "buffer parameters must be positive");
            return None;
        }
        proof {
            let (w, b) = (a.width as int, format.bytes_per_pixel as int);
            assert(0 <= w * b <= 0x7fff_ffff * 0xffff_ffff) by (nonlinear_arith)
                requires
                    0 <= w <= 0x7fff_ffff,
                    0 <= b <= 0xffff_ffff,
            ;
            let (s, h) = (a.stride as int, a.height as int);
            assert(0 <= s * h <= 0x7fff_ffff * 0x7fff_ffff) by (nonlinear_arith)
                requires
                    0 <= s <= 0x7fff_ffff,
                    0 <= h <= 0x7fff_ffff,
            ;
        }
        if (a.stride as u64) < a.width as u64 * format.bytes_per_pixel as u64 {
            let (s, w): (String, String) = (decimal_text(a.stride as u64), decimal_text(a.width as u64));
            let text: String = "stride ".to_owned().concat(s.as_str()).concat(" is too small for width ").concat(
                w.as_str(),
            );
            out.protocol_error(self.client, self.id, INVALID_STRIDE, text.as_str());
            return None;
        }
        let end: u64 = a.offset as u64 + a.stride as u64 * a.height as u64;
        if end > self.requested as u64 {
            out.protocol_error(self.client, self.id, INVALID_STRIDE, "buffer extends past the pool");
            return None;
        }
        Some(
            WlBuffer {
                id: a.id,
                uid,
                client: self.client,
                rect: Rect::new_sized_saturating(0, 0, a.width, a.height),
                format,
                stride: a.stride,
                storage: BufferStorage::Shm { offset: a.offset as usize, sealed: self.sealed },
                destroyed: false,
            },
        )
    }

    pub open spec fn grows_spec(self, size: i32) -> bool {
        size >= 0 && size >= self.requested
    }

    /// Whether the pool may be given that size.
    pub fn grows(&self, size: i32) -> (r: bool)
        ensures
            r == self.grows_spec(size),
    {
        size >= 0 && size as usize >= self.requested
    }

    /// Gives the pool a new mapping of `size` bytes; existing buffers keep the old
    /// one. `mapped` is what mapping them came to.
    pub fn resize(&mut self, size: i32, mapped: Result<bool, String>) -> (r: Result<(), String>)
        ensures
            !old(self).grows_spec(size) ==> *final(self) == *old(self) && (r matches Err(e) && e@ == "pools can only grow"@),
            old(self).grows_spec(size) ==> match mapped {
                Err(e) => r matches Err(f) && f == e && *final(self) == *old(self),
                Ok(sealed) => r is Ok && *final(self) == (WlShmPool { requested: size as usize, sealed, ..*old(self) }),
            },
            final(self).requested >= old(self).requested,
    {
        if !self.grows(size) {
            return Err("pools can only grow".to_owned());
        }
        match mapped {
            Err(e) => Err(e),
            Ok(sealed) => {
                self.requested = size as usize;
                self.sealed = sealed;
                Ok(())
            },
        }
    }
}

/// Where the pixels are.
#[derive(Debug)]
pub enum BufferStorage {
    /// at a byte offset of a mapped pool
    Shm { offset: usize, sealed: bool },
    Dmabuf(DmabufImage),
}

#[derive(Debug)]
pub struct DmabufImage {
    pub planes: Vec<DmabufPlane>,
    pub modifier: u64,
}

#[derive(Clone, Copy, Debug, PartialEq, Eq, Structural)]
pub struct DmabufPlane {
    pub fd: u32,
    pub offset: u32,
    pub stride: u32,
}

#[derive(Debug)]
pub struct WlBuffer {
    pub id: ObjectId,
    /// never reused, shared with surfaces
    pub uid: u64,
    pub client: u32,
    pub rect: Rect,
    pub format: Format,
    pub stride: i32,
    pub storage: BufferStorage,
    pub destroyed: bool,
}

impl WlBuffer {
    /// A size that fits, and for shared memory an end that can be addressed.
    pub open spec fn wf(self) -> bool {
        &&& self.rect.wf()
        &&& self.stride >= 0
        &&& self.storage matches BufferStorage::Shm { offset, .. } ==> offset + self.stride * (self.rect.y2
            - self.rect.y1) <= usize::MAX
    }

    /// The offset into a pool sealed against shrinking: safe to import and sample in
    /// place.
    pub fn shm_sealed_pool(&self) -> (r: Option<usize>)
        ensures
            r == (match self.storage {
                BufferStorage::Shm { offset, sealed } if sealed => Some(offset),
                _ => None::<usize>,
            }),
    {
        match &self.storage {
            BufferStorage::Shm { offset, sealed } => if *sealed {
                Some(*offset)
            } else {
                None
            },
            BufferStorage::Dmabuf(_) => None,
        }
    }

    /// The byte offset for reading out of the pool.
    pub fn shm_access(&self) -> (r: Option<usize>)
        ensures
            r == (match self.storage {
                BufferStorage::Shm { offset, .. } => Some(offset),
                BufferStorage::Dmabuf(_) => None::<usize>,
            }),
    {
        match &self.storage {
            BufferStorage::Shm { offset, .. } => Some(*offset),
            BufferStorage::Dmabuf(_) => None,
        }
    }

    /// The byte offset for writing into the pool; `None` for dmabuf storage.
    pub fn shm_write_target(&self) -> (r: Option<usize>)
        ensures
            r == (match self.storage {
                BufferStorage::Shm { offset, .. } => Some(offset),
                BufferStorage::Dmabuf(_) => None::<usize>,
            }),
    {
        self.shm_access()
    }

    pub fn dmabuf(&self) -> (r: Option<&DmabufImage>)
        ensures
            match self.storage {
                BufferStorage::Dmabuf(img) => r matches Some(i) && *i == img,
                BufferStorage::Shm { .. } => r is None,
            },
    {
        match &self.storage {
            BufferStorage::Dmabuf(img) => Some(img),
            BufferStorage::Shm { .. } => None,
        }
    }

    /// Surfaces may keep displaying it; only events to its id stop.
    pub fn destroy(&mut self)
        ensures
            *final(self) == (WlBuffer { destroyed: true, ..*old(self) }),
    {
        self.destroyed = true;
    }
}

impl DmabufImage {
    /// The descriptor whose pending writes a reader waits for.
    pub fn fence_fd(&self) -> (r: Option<u32>)
        ensures
            r == (if self.planes@.len() > 0 { Some(self.planes@[0].fd) } else { None }),
    {
        if self.planes.len() > 0 {
            Some(self.planes[0].fd)
        } else {
            None
        }
    }
}

/// One attach of a buffer to a surface. An attach promises nothing, a commit does,
/// and whoever lets go of the attachment keeps the promise: replacing it, attaching
/// nothing and tearing down behave alike.
#[derive(Clone, Copy, Debug, PartialEq, Eq, Structural)]
pub struct AttachedBuffer {
    /// the buffer's identity
    pub buf: u64,
    pub send_release: bool,
}

impl AttachedBuffer {
    pub fn new(buf: &WlBuffer) -> (r: AttachedBuffer)
        ensures
            r == (AttachedBuffer { buf: buf.uid, send_release: false }),
    {
        AttachedBuffer { buf: buf.uid, send_release: false }
    }

    /// The surface committed the attachment.
    pub fn commit(&mut self)
        ensures
            *final(self) == (AttachedBuffer { send_release: true, ..*old(self) }),
    {
        self.send_release = true;
    }

    /// Lets go of the attachment: the client gets the buffer back, once.
    pub fn let_go(self, buf: &WlBuffer, out: &mut Out)
        requires
            buf.uid == self.buf,
        ensures
            final(out).sent@ == (if self.send_release && !buf.destroyed {
                old(out).sent@.push(sent(buf.client, buf.id, Event::BufferRelease))
            } else {
                old(out).sent@
            }),
    {
        if self.send_release && !buf.destroyed {
            out.event(buf.client, buf.id, Event::BufferRelease);
        }
    }
}

/// A buffer that was in its pool is in it after any growth.
pub proof fn buffers_stay_in_their_pool(pool: WlShmPool, formats: Seq<Format>, a: BufferAsk, grown: WlShmPool)
    requires
        buffer_fault(pool, formats, a) is None,
        grown.requested >= pool.requested,
    ensures
        buffer_fault(grown, formats, a) is None,
        0 <= a.offset && a.offset + a.stride * a.height <= grown.requested,
{
}

} // verus!
