//! What the renderer keeps between frames: recycled command buffers, upload slots,
//! the capture target, imported client pools; and how a texture comes to be.
use crate::output::{first_slot, first_slot_absent, first_slot_found};
use crate::render::renderer::{PreUpload, Texture};
use crate::render::vulkan::{find_memory_type, type_fits, RenderError};
use crate::text::{decimal_text, digits};
use vstd::prelude::*;

verus! {

/// Enough for a burst of commits in one cycle; with all of them busy the draw-time
/// path takes over, nothing ever blocks.
pub const UPLOAD_SLOTS: usize = 3;

/// Staging memory of a commit-time upload, recycled once its fence signals.
#[derive(Clone, Copy, Debug, PartialEq, Eq, Structural)]
pub struct UploadSlot {
    /// capacity in bytes
    pub cap: u64,
    /// the staging buffer, 0 while there is none
    pub buffer: u64,
    pub memory: u64,
}

/// A sealed client pool imported as memory the device sees. A null buffer remembers
/// a pool that cannot be imported.
#[derive(Clone, Copy, Debug, PartialEq, Eq, Structural)]
pub struct HostImport {
    pub pool: u64,
    pub buffer: u64,
    pub memory: u64,
}

/// A submitted frame.
pub struct Frame {
    pub cb: u64,
    pub fence: u64,
    pub waits: Vec<u64>,
    pub staging: Vec<PreUpload>,
}

/// A device object to destroy.
#[derive(Clone, Copy, Debug, PartialEq, Eq, Structural)]
pub enum Doomed {
    Fence(u64),
    Semaphore(u64),
    Buffer(u64),
    Memory(u64),
    Image(u64),
    ImageView(u64),
}

pub struct Renderer {
    /// command buffers ready for reuse
    pub free_cbs: Vec<u64>,
    pub tex_uid: u64,
    /// size of the capture target, while there is one
    pub capture: Option<(u32, u32)>,
    pub slots: Vec<UploadSlot>,
    pub imports: Vec<HostImport>,
}

pub open spec fn semaphores(waits: Seq<u64>) -> Seq<Doomed> {
    Seq::new(waits.len(), |i: int| Doomed::Semaphore(waits[i]))
}

/// Owned staging, buffer then memory; imported pools are not the frame's to free.
pub open spec fn staging_doomed(us: Seq<PreUpload>) -> Seq<Doomed>
    decreases us.len(),
{
    if us.len() == 0 {
        Seq::empty()
    } else {
        let u = us.last();
        let front = staging_doomed(us.drop_last());
        if u.owned {
            front.push(Doomed::Buffer(u.buffer)).push(Doomed::Memory(u.memory))
        } else {
            front
        }
    }
}

/// Everything a retired frame held.
pub open spec fn frame_doomed(f: Frame) -> Seq<Doomed> {
    seq![Doomed::Fence(f.fence)] + semaphores(f.waits@) + staging_doomed(f.staging@)
}

/// Which slot an upload may use.
#[derive(Clone, Copy, Debug, PartialEq, Eq, Structural)]
pub enum Claim {
    Use(usize),
    /// all busy, but another slot may be made
    Grow,
    Busy,
    /// asking a fence failed with this code
    Failed(i32),
}

/// A fence that is not simply still pending.
pub open spec fn settled() -> spec_fn(Result<bool, i32>) -> bool {
    |s: Result<bool, i32>| s != Ok::<bool, i32>(false)
}

pub open spec fn claim_spec(fences: Seq<Result<bool, i32>>) -> Claim {
    match first_slot(fences, settled()) {
        Some(k) => match fences[k] {
            Ok(_) => Claim::Use(k as usize),
            Err(code) => Claim::Failed(code),
        },
        None => if fences.len() < UPLOAD_SLOTS { Claim::Grow } else { Claim::Busy },
    }
}

/// What is known of a client pool.
#[derive(Clone, Copy, Debug, PartialEq, Eq, Structural)]
pub enum Known {
    Imported(u64),
    /// it cannot be imported; do not try again
    Refused,
    Never,
}

pub open spec fn of_pool(pool: u64) -> spec_fn(HostImport) -> bool {
    |h: HostImport| h.pool == pool
}

pub open spec fn known_spec(imports: Seq<HostImport>, pool: u64) -> Known {
    match first_slot(imports, of_pool(pool)) {
        Some(k) => if imports[k].buffer == 0 {
            Known::Refused
        } else {
            Known::Imported(imports[k].buffer)
        },
        None => Known::Never,
    }
}

/// The imports whose pool is still held elsewhere.
pub open spec fn kept_imports(imports: Seq<HostImport>, shared: Seq<bool>) -> Seq<HostImport>
    decreases imports.len(),
{
    if imports.len() == 0 {
        Seq::empty()
    } else {
        let front = kept_imports(imports.drop_last(), shared.drop_last());
        if shared.last() { front.push(imports.last()) } else { front }
    }
}

pub open spec fn pruned_doomed(imports: Seq<HostImport>, shared: Seq<bool>) -> Seq<Doomed>
    decreases imports.len(),
{
    if imports.len() == 0 {
        Seq::empty()
    } else {
        let h = imports.last();
        let front = pruned_doomed(imports.drop_last(), shared.drop_last());
        if shared.last() {
            front
        } else {
            front.push(Doomed::Buffer(h.buffer)).push(Doomed::Memory(h.memory))
        }
    }
}

impl Renderer {
    pub fn new() -> (r: Renderer)
        ensures
            r.free_cbs@.len() == 0,
            r.tex_uid == 0,
            r.capture is None,
            r.slots@.len() == 0,
            r.imports@.len() == 0,
    {
        Renderer {
            free_cbs: Vec::new(),
            tex_uid: 0,
            capture: None,
            slots: Vec::new(),
            imports: Vec::new(),
        }
    }

    /// A number for a new texture. Cached textures keep their keys when they are
    /// replaced; this tells the replacement apart.
    pub fn next_tex_uid(&mut self) -> (r: u64)
        requires
            old(self).tex_uid < u64::MAX,
        ensures
            r == old(self).tex_uid,
            *final(self) == (Renderer { tex_uid: (r + 1) as u64, ..*old(self) }),
    {
        let u: u64 = self.tex_uid;
        self.tex_uid = u + 1;
        u
    }

    /// A recycled command buffer, to be reset before use; none when one must be
    /// allocated.
    pub fn take_cb(&mut self) -> (r: Option<u64>)
        ensures
            old(self).free_cbs@.len() == 0 ==> r is None && final(self).free_cbs@ == old(self).free_cbs@,
            old(self).free_cbs@.len() > 0 ==> {
                &&& r == Some(old(self).free_cbs@.last())
                &&& final(self).free_cbs@ == old(self).free_cbs@.drop_last()
            },
            *final(self) == (Renderer { free_cbs: final(self).free_cbs, ..*old(self) }),
    {
        self.free_cbs.pop()
    }

    /// Takes back what a frame held, once its fence has signalled or its submission
    /// has failed: the command buffer is kept, the rest is to be destroyed.
    pub fn recycle_frame(&mut self, frame: Frame) -> (r: Vec<Doomed>)
        ensures
            r@ == frame_doomed(frame),
            final(self).free_cbs@ == old(self).free_cbs@.push(frame.cb),
            *final(self) == (Renderer { free_cbs: final(self).free_cbs, ..*old(self) }),
    {
        let mut out: Vec<Doomed> = Vec::new();
        out.push(Doomed::Fence(frame.fence));
        let ghost first = out@;
        for i in 0..frame.waits.len()
            invariant
                out@ == first + semaphores(frame.waits@).take(i as int),
        {
            out.push(Doomed::Semaphore(frame.waits[i]));
            assert(out@ =~= first + semaphores(frame.waits@).take(i + 1));
        }
        let ghost had = out@;
        assert(semaphores(frame.waits@).take(frame.waits@.len() as int) =~= semaphores(frame.waits@));
        assert(had =~= had + staging_doomed(frame.staging@.take(0)));
        for i in 0..frame.staging.len()
            invariant
                out@ == had + staging_doomed(frame.staging@.take(i as int)),
        {
            let u: PreUpload = frame.staging[i];
            proof {
                assert(frame.staging@.take(i + 1).drop_last() =~= frame.staging@.take(i as int));
                assert(frame.staging@.take(i + 1).last() == u);
            }
            if u.owned {
                out.push(Doomed::Buffer(u.buffer));
                out.push(Doomed::Memory(u.memory));
            }
            assert(out@ =~= had + staging_doomed(frame.staging@.take(i + 1)));
        }
        assert(frame.staging@.take(frame.staging@.len() as int) =~= frame.staging@);
        assert(first =~= seq![Doomed::Fence(frame.fence)]);
        self.free_cbs.push(frame.cb);
        out
    }

    /// Readies the capture target for a size: `true` when it has that size already.
    /// Otherwise the old one, if any, is given up and must be destroyed.
    pub fn ensure_capture(&mut self, w: u32, h: u32) -> (r: (bool, Option<(u32, u32)>))
        ensures
            r.0 == (old(self).capture == Some((w, h))),
            r.0 ==> r.1 is None && *final(self) == *old(self),
            !r.0 ==> r.1 == old(self).capture && *final(self) == (Renderer { capture: None, ..*old(self) }),
    {
        match self.capture {
            Some((cw, ch)) => {
                if cw == w && ch == h {
                    return (true, None);
                }
            },
            None => {},
        }
        let gone: Option<(u32, u32)> = self.capture;
        self.capture = None;
        (false, gone)
    }

    /// A capture target of this size was built.
    pub fn capture_built(&mut self, w: u32, h: u32)
        ensures
            *final(self) == (Renderer { capture: Some((w, h)), ..*old(self) }),
    {
        self.capture = Some((w, h));
    }

    /// Finds a free upload slot by the state of each slot's fence: the first that has
    /// signalled. A fence that cannot be asked before one is found ends the search.
    pub fn claim_slot(&self, fences: &Vec<Result<bool, i32>>) -> (r: Claim)
        requires
            fences@.len() == self.slots@.len(),
        ensures
            r == claim_spec(fences@),
            r matches Claim::Use(k) ==> k < self.slots@.len(),
    {
        for i in 0..fences.len()
            invariant
                fences@.len() == self.slots@.len(),
                forall|j: int| 0 <= j < i ==> !settled()(#[trigger] fences@[j]),
        {
            match &fences[i] {
                Ok(signalled) => {
                    if *signalled {
                        proof {
                            first_slot_found(fences@, settled(), i as int);
                        }
                        return Claim::Use(i);
                    }
                },
                Err(code) => {
                    proof {
                        first_slot_found(fences@, settled(), i as int);
                    }
                    return Claim::Failed(*code);
                },
            }
        }
        proof {
            first_slot_absent(fences@, settled());
        }
        if fences.len() < UPLOAD_SLOTS {
            Claim::Grow
        } else {
            Claim::Busy
        }
    }

    /// Adds an empty slot; its index.
    pub fn grow_slots(&mut self) -> (r: usize)
        ensures
            r == old(self).slots@.len(),
            final(self).slots@ == old(self).slots@.push(UploadSlot { cap: 0, buffer: 0, memory: 0 }),
            *final(self) == (Renderer { slots: final(self).slots, ..*old(self) }),
    {
        let i: usize = self.slots.len();
        self.slots.push(UploadSlot { cap: 0, buffer: 0, memory: 0 });
        i
    }

    /// Readies a slot for `size` bytes: `true` when its staging is large enough.
    /// Otherwise the staging it had is given up and must be destroyed, and new
    /// staging is owed.
    pub fn fit_slot(&mut self, i: usize, size: u64) -> (r: (bool, Option<(u64, u64)>))
        requires
            i < old(self).slots@.len(),
        ensures
            ({
                let s = old(self).slots@[i as int];
                if s.cap >= size {
                    r == (true, None::<(u64, u64)>) && *final(self) == *old(self)
                } else {
                    &&& r == (false, if s.buffer != 0 { Some((s.buffer, s.memory)) } else { None })
                    &&& final(self).slots@ == old(self).slots@.update(
                        i as int,
                        UploadSlot { cap: 0, buffer: 0, memory: s.memory },
                    )
                    &&& *final(self) == (Renderer { slots: final(self).slots, ..*old(self) })
                }
            }),
    {
        let s: UploadSlot = self.slots[i];
        if s.cap >= size {
            return (true, None);
        }
        self.slots.set(i, UploadSlot { cap: 0, buffer: 0, memory: s.memory });
        (false, if s.buffer != 0 { Some((s.buffer, s.memory)) } else { None })
    }

    /// New staging was made for a slot.
    pub fn slot_ready(&mut self, i: usize, size: u64, buffer: u64, memory: u64)
        requires
            i < old(self).slots@.len(),
        ensures
            final(self).slots@ == old(self).slots@.update(i as int, UploadSlot { cap: size, buffer, memory }),
            *final(self) == (Renderer { slots: final(self).slots, ..*old(self) }),
    {
        self.slots.set(i, UploadSlot { cap: size, buffer, memory });
    }

    /// What is known of a pool: its buffer, that it cannot be imported, or nothing.
    pub fn host_buffer_for(&self, pool: u64) -> (r: Known)
        ensures
            r == known_spec(self.imports@, pool),
    {
        for i in 0..self.imports.len()
            invariant
                forall|j: int| 0 <= j < i ==> !of_pool(pool)(#[trigger] self.imports@[j]),
        {
            if self.imports[i].pool == pool {
                proof {
                    first_slot_found(self.imports@, of_pool(pool), i as int);
                }
                if self.imports[i].buffer == 0 {
                    return Known::Refused;
                }
                return Known::Imported(self.imports[i].buffer);
            }
        }
        proof {
            first_slot_absent(self.imports@, of_pool(pool));
        }
        Known::Never
    }

    /// Remembers how importing a pool went. A failed import is remembered too, so
    /// later commits do not try again.
    pub fn remember_import(&mut self, pool: u64, made: Option<(u64, u64)>) -> (r: Option<u64>)
        requires
            known_spec(old(self).imports@, pool) is Never,
        ensures
            ({
                let (buffer, memory) = match made {
                    Some(p) => p,
                    None => (0, 0),
                };
                &&& final(self).imports@ == old(self).imports@.push(HostImport { pool, buffer, memory })
                &&& r == (if buffer != 0 { Some(buffer) } else { None })
                &&& *final(self) == (Renderer { imports: final(self).imports, ..*old(self) })
            }),
    {
        let (buffer, memory): (u64, u64) = match made {
            Some(p) => p,
            None => (0, 0),
        };
        self.imports.push(HostImport { pool, buffer, memory });
        if buffer != 0 {
            Some(buffer)
        } else {
            None
        }
    }

    /// Drops imports whose pool nobody else holds anymore; `shared` says of each
    /// whether somebody does.
    pub fn prune_host_imports(&mut self, shared: &Vec<bool>) -> (r: Vec<Doomed>)
        requires
            shared@.len() == old(self).imports@.len(),
        ensures
            final(self).imports@ == kept_imports(old(self).imports@, shared@),
            r@ == pruned_doomed(old(self).imports@, shared@),
            *final(self) == (Renderer { imports: final(self).imports, ..*old(self) }),
    {
        let ghost all = self.imports@;
        let n: usize = self.imports.len();
        let mut kept: Vec<HostImport> = Vec::new();
        let mut out: Vec<Doomed> = Vec::new();
        assert(kept@ =~= kept_imports(all.take(0), shared@.take(0)));
        assert(out@ =~= pruned_doomed(all.take(0), shared@.take(0)));
        for i in 0..n
            invariant
                n == all.len(),
                self.imports@ == all,
                shared@.len() == n,
                kept@ == kept_imports(all.take(i as int), shared@.take(i as int)),
                out@ == pruned_doomed(all.take(i as int), shared@.take(i as int)),
        {
            let h: HostImport = self.imports[i];
            proof {
                assert(all.take(i + 1).drop_last() =~= all.take(i as int));
                assert(shared@.take(i + 1).drop_last() =~= shared@.take(i as int));
            }
            if shared[i] {
                kept.push(h);
            } else {
                out.push(Doomed::Buffer(h.buffer));
                out.push(Doomed::Memory(h.memory));
            }
        }
        proof {
            assert(all.take(n as int) =~= all);
            assert(shared@.take(n as int) =~= shared@);
        }
        self.imports = kept;
        out
    }
}

/// A pool whose import failed is never tried again, and one that worked keeps its
/// buffer: asking again after an import gives back its outcome.
pub proof fn imports_are_remembered(imports: Seq<HostImport>, pool: u64, buffer: u64, memory: u64)
    requires
        known_spec(imports, pool) is Never,
    ensures
        known_spec(imports.push(HostImport { pool, buffer, memory }), pool) == (if buffer == 0 {
            Known::Refused
        } else {
            Known::Imported(buffer)
        }),
{
    let more = imports.push(HostImport { pool, buffer, memory });
    assert(more.drop_last() =~= imports);
}

/// Whether host memory can be imported at all: somewhere, and in whole units.
pub fn host_ptr_fits(ptr: u64, len: u64, align: u64) -> (r: bool)
    requires
        align > 0,
    ensures
        r == (ptr != 0 && len != 0 && ptr % align == 0 && len % align == 0),
{
    ptr != 0 && len != 0 && ptr % align == 0 && len % align == 0
}

/// The memory type to import into: the lowest that both the buffer and the memory
/// allow, if the memory holds the buffer.
pub fn import_type(buffer_bits: u32, memory_bits: u32, needed: u64, len: u64) -> (r: Option<u32>)
    ensures
        match r {
            None => buffer_bits & memory_bits == 0 || needed > len,
            Some(k) => needed <= len && buffer_bits & memory_bits != 0 && k
                == vstd::std_specs::bits::u32_trailing_zeros(buffer_bits & memory_bits),
        },
{
    let bits: u32 = buffer_bits & memory_bits;
    if bits == 0 || needed > len {
        return None;
    }
    Some(bits.trailing_zeros())
}

/// Bytes of a tightly packed image.
pub fn image_bytes(width: u32, height: u32) -> (r: u64)
    requires
        width * height * 4 <= u32::MAX,
    ensures
        r == width * height * 4,
{
    assert(width * height <= width * height * 4) by (nonlinear_arith);
    (width * height * 4) as u64
}

// -- textures --

/// How a texture is made.
#[derive(Clone, Copy, Debug, PartialEq, Eq, Structural)]
pub enum Origin {
    /// memory of its own, filled by copies
    Upload,
    /// memory of its own, drawn into
    Render,
    /// a client's buffer, sampled in place
    Dmabuf,
}

/// What the device did last.
#[derive(Clone, Copy, Debug)]
pub enum Answer {
    /// an image was created, with the memory types it accepts
    Image { image: u64, bits: u32 },
    /// the memory types a client buffer accepts
    FdBits(u32),
    Memory(u64),
    Done,
    View(u64),
    Failed(i32),
}

/// What the device is to do next.
pub enum Next {
    QueryFd,
    Allocate { mem_type: u32 },
    Bind { image: u64, memory: u64 },
    /// a view; the alpha of opaque images is pinned to one
    CreateView { image: u64, pin_alpha: bool },
    /// make it readable by shaders
    Transition { image: u64 },
    Finish(Texture),
    /// destroy these, in order, and fail
    Abort { doomed: Vec<Doomed>, error: RenderError },
}

/// Where the making of a texture stands.
#[derive(Clone, Copy, Debug, PartialEq, Eq, Structural)]
pub enum Step {
    Start,
    Querying,
    Allocating,
    Binding,
    Viewing,
    Settling,
    Over,
}

/// A texture in the making.
#[derive(Clone, Copy, Debug, PartialEq, Eq, Structural)]
pub struct TexBuild {
    pub origin: Origin,
    pub width: u32,
    pub height: u32,
    pub opaque: bool,
    pub step: Step,
    pub image: u64,
    pub bits: u32,
    pub memory: u64,
    pub view: u64,
}

/// What exists already, latest first.
pub open spec fn made(b: TexBuild) -> Seq<Doomed> {
    match b.step {
        Step::Start | Step::Over => Seq::empty(),
        Step::Querying | Step::Allocating => seq![Doomed::Image(b.image)],
        Step::Binding | Step::Viewing => seq![Doomed::Memory(b.memory), Doomed::Image(b.image)],
        Step::Settling => seq![Doomed::ImageView(b.view), Doomed::Memory(b.memory), Doomed::Image(b.image)],
    }
}

fn undo(b: &TexBuild) -> (r: Vec<Doomed>)
    ensures
        r@ == made(*b),
{
    let mut out: Vec<Doomed> = Vec::new();
    match b.step {
        Step::Start | Step::Over => {},
        Step::Querying | Step::Allocating => {
            out.push(Doomed::Image(b.image));
        },
        Step::Binding | Step::Viewing => {
            out.push(Doomed::Memory(b.memory));
            out.push(Doomed::Image(b.image));
        },
        Step::Settling => {
            out.push(Doomed::ImageView(b.view));
            out.push(Doomed::Memory(b.memory));
            out.push(Doomed::Image(b.image));
        },
    }
    assert(out@ =~= made(*b));
    out
}

/// The flags memory of a texture must have: none for a client's buffer, else
/// device-local.
pub open spec fn memory_flags(o: Origin) -> u32 {
    if o is Dmabuf { 0 } else { 1 }
}

/// Whether an answer is one that a step waits for.
pub open spec fn expected(s: Step, a: Answer) -> bool {
    a is Failed || match s {
        Step::Start => a is Image,
        Step::Querying => a is FdBits,
        Step::Allocating => a is Memory,
        Step::Binding => a is Done,
        Step::Viewing => a is View,
        Step::Settling => a is Done,
        Step::Over => false,
    }
}

/// The texture that results.
pub open spec fn finished(b: TexBuild, uid: u64) -> Texture {
    Texture {
        image: b.image,
        memory: b.memory,
        view: b.view,
        width: b.width,
        height: b.height,
        undefined: !(b.origin is Dmabuf),
        uid,
    }
}

/// What choosing memory among `bits` leads to.
pub open spec fn allocates(types: Seq<u32>, b: TexBuild, after: TexBuild, next: Next) -> bool {
    let flags = memory_flags(b.origin);
    match next {
        Next::Allocate { mem_type } => {
            &&& mem_type < types.len()
            &&& type_fits(types, mem_type as int, b.bits, flags)
            &&& forall|j: int| 0 <= j < mem_type ==> !#[trigger] type_fits(types, j, b.bits, flags)
            &&& after == (TexBuild { step: Step::Allocating, ..b })
        },
        Next::Abort { doomed, error } => {
            &&& error is NoMemoryType
            &&& forall|j: int| 0 <= j < types.len() ==> !#[trigger] type_fits(types, j, b.bits, flags)
            &&& doomed@ == seq![Doomed::Image(b.image)]
            &&& after == (TexBuild { step: Step::Over, ..b })
        },
        _ => false,
    }
}

/// One step of making a texture.
pub open spec fn advances(types: Seq<u32>, uid: u64, b: TexBuild, a: Answer, after: TexBuild, next: Next) -> bool {
    match (b.step, a) {
        (_, Answer::Failed(code)) => {
            &&& next matches Next::Abort { doomed, error } && doomed@ == made(b) && error == RenderError::Vk(code)
            &&& after == (TexBuild { step: Step::Over, ..b })
        },
        (Step::Start, Answer::Image { image, bits }) => if b.origin is Dmabuf {
            next is QueryFd && after == (TexBuild { step: Step::Querying, image, bits, ..b })
        } else {
            allocates(types, TexBuild { image, bits, ..b }, after, next)
        },
        (Step::Querying, Answer::FdBits(bits)) => allocates(
            types,
            TexBuild { bits: b.bits & bits, ..b },
            after,
            next,
        ),
        (Step::Allocating, Answer::Memory(memory)) => {
            &&& next == Next::Bind { image: b.image, memory }
            &&& after == (TexBuild { step: Step::Binding, memory, ..b })
        },
        (Step::Binding, Answer::Done) => {
            &&& next == Next::CreateView { image: b.image, pin_alpha: b.opaque && !(b.origin is Render) }
            &&& after == (TexBuild { step: Step::Viewing, ..b })
        },
        (Step::Viewing, Answer::View(view)) => if b.origin is Dmabuf {
            &&& next == Next::Transition { image: b.image }
            &&& after == (TexBuild { step: Step::Settling, view, ..b })
        } else {
            &&& next == Next::Finish(finished(TexBuild { view, ..b }, uid))
            &&& after == (TexBuild { step: Step::Over, view, ..b })
        },
        (Step::Settling, Answer::Done) => {
            &&& next == Next::Finish(finished(b, uid))
            &&& after == (TexBuild { step: Step::Over, ..b })
        },
        _ => false,
    }
}

impl TexBuild {
    /// Starts a texture; an image is to be created first.
    pub fn start(origin: Origin, width: u32, height: u32, opaque: bool) -> (b: TexBuild)
        ensures
            b == (TexBuild { origin, width, height, opaque, step: Step::Start, image: 0, bits: 0, memory: 0, view: 0 }),
    {
        TexBuild { origin, width, height, opaque, step: Step::Start, image: 0, bits: 0, memory: 0, view: 0 }
    }

    fn choose_memory(&mut self, types: &Vec<u32>) -> (r: Next)
        requires
            types@.len() <= 32,
        ensures
            allocates(types@, *old(self), *final(self), r),
    {
        let flags: u32 = match self.origin {
            Origin::Dmabuf => 0,
            _ => 1,
        };
        match find_memory_type(types, self.bits, flags) {
            Ok(mem_type) => {
                self.step = Step::Allocating;
                Next::Allocate { mem_type }
            },
            Err(error) => {
                let mut doomed: Vec<Doomed> = Vec::new();
                doomed.push(Doomed::Image(self.image));
                self.step = Step::Over;
                assert(doomed@ =~= seq![Doomed::Image(self.image)]);
                Next::Abort { doomed, error }
            },
        }
    }

    /// Takes the device's answer and says what comes next. A failure undoes what was
    /// made so far, latest first. `types` holds the flags of each memory type and
    /// `uid` the number for the texture, should it be finished.
    pub fn step(&mut self, types: &Vec<u32>, uid: u64, a: Answer) -> (r: Next)
        requires
            types@.len() <= 32,
            expected(old(self).step, a),
        ensures
            advances(types@, uid, *old(self), a, *final(self), r),
    {
        match a {
            Answer::Failed(code) => {
                let doomed: Vec<Doomed> = undo(self);
                self.step = Step::Over;
                Next::Abort { doomed, error: RenderError::Vk(code) }
            },
            Answer::Image { image, bits } => {
                self.image = image;
                self.bits = bits;
                match self.origin {
                    Origin::Dmabuf => {
                        self.step = Step::Querying;
                        Next::QueryFd
                    },
                    _ => self.choose_memory(types),
                }
            },
            Answer::FdBits(bits) => {
                self.bits = self.bits & bits;
                self.choose_memory(types)
            },
            Answer::Memory(memory) => {
                self.memory = memory;
                self.step = Step::Binding;
                Next::Bind { image: self.image, memory }
            },
            Answer::Done => match self.step {
                Step::Binding => {
                    self.step = Step::Viewing;
                    let pin_alpha: bool = match self.origin {
                        Origin::Render => false,
                        _ => self.opaque,
                    };
                    Next::CreateView { image: self.image, pin_alpha }
                },
                _ => {
                    self.step = Step::Over;
                    Next::Finish(self.texture(uid))
                },
            },
            Answer::View(view) => {
                self.view = view;
                match self.origin {
                    Origin::Dmabuf => {
                        self.step = Step::Settling;
                        Next::Transition { image: self.image }
                    },
                    _ => {
                        self.step = Step::Over;
                        Next::Finish(self.texture(uid))
                    },
                }
            },
        }
    }

    fn texture(&self, uid: u64) -> (r: Texture)
        ensures
            r == finished(*self, uid),
    {
        let undefined: bool = match self.origin {
            Origin::Dmabuf => false,
            _ => true,
        };
        Texture {
            image: self.image,
            memory: self.memory,
            view: self.view,
            width: self.width,
            height: self.height,
            undefined,
            uid,
        }
    }
}

/// Whatever step a texture fails at, all that exists of it is destroyed, and nothing
/// twice: what a later step adds is what its failure destroys first.
pub proof fn failed_textures_leave_nothing(types: Seq<u32>, uid: u64, b: TexBuild, a: Answer, after: TexBuild, next: Next)
    requires
        expected(b.step, a),
        advances(types, uid, b, a, after, next),
        next is Abort,
    ensures
        after.step is Over,
        a is Failed ==> next->doomed@ == made(b),
        !(a is Failed) ==> next->doomed@ == seq![Doomed::Image(after.image)],
{
}

/// A step that goes on adds at most the object it was answered.
pub proof fn steps_add_one_object(types: Seq<u32>, uid: u64, b: TexBuild, a: Answer, after: TexBuild, next: Next)
    requires
        expected(b.step, a),
        advances(types, uid, b, a, after, next),
        !(next is Abort),
        !(next is Finish),
    ensures
        made(after) == (match a {
            Answer::Image { image, .. } => seq![Doomed::Image(image)],
            Answer::Memory(m) => seq![Doomed::Memory(m)] + made(b),
            Answer::View(v) => seq![Doomed::ImageView(v)] + made(b),
            _ => made(b),
        }),
{
    match a {
        Answer::Memory(m) => {
            assert(made(after) =~= seq![Doomed::Memory(m)] + made(b));
        },
        Answer::View(v) => {
            assert(made(after) =~= seq![Doomed::ImageView(v)] + made(b));
        },
        _ => {},
    }
}

/// A client buffer has at least one plane; the first one is imported. The layout of
/// each is its offset and stride.
pub open spec fn plane_layouts_spec(planes: Seq<(u32, u32)>) -> Seq<(u64, u64)> {
    Seq::new(planes.len(), |i: int| (planes[i].0 as u64, planes[i].1 as u64))
}

/// The plane layouts of an imported buffer, from each plane's offset and stride.
pub fn plane_layouts(planes: &Vec<(u32, u32)>) -> (r: Result<Vec<(u64, u64)>, RenderError>)
    ensures
        planes@.len() == 0 ==> (r matches Err(RenderError::Load(e)) && e@ == "dmabuf with no planes"@),
        planes@.len() > 0 ==> (r matches Ok(v) && v@ == plane_layouts_spec(planes@)),
{
    if planes.len() == 0 {
        return Err(RenderError::Load("dmabuf with no planes".to_owned()));
    }
    let mut out: Vec<(u64, u64)> = Vec::new();
    for i in 0..planes.len()
        invariant
            out@ == plane_layouts_spec(planes@).take(i as int),
    {
        out.push((planes[i].0 as u64, planes[i].1 as u64));
        assert(out@ =~= plane_layouts_spec(planes@).take(i + 1));
    }
    assert(plane_layouts_spec(planes@).take(planes@.len() as int) =~= plane_layouts_spec(planes@));
    Ok(out)
}

// -- diagnostics --

/// A pixel's four bytes, as text.
pub open spec fn pixel_text(p: (u8, u8, u8, u8)) -> Seq<char> {
    "("@ + digits(p.0 as nat) + ", "@ + digits(p.1 as nat) + ", "@ + digits(p.2 as nat) + ", "@ + digits(p.3 as nat)
        + ")"@
}

fn write_pixel(p: (u8, u8, u8, u8)) -> (r: String)
    ensures
        r@ == pixel_text(p),
{
    let a: String = decimal_text(p.0 as u64);
    let b: String = decimal_text(p.1 as u64);
    let c: String = decimal_text(p.2 as u64);
    let d: String = decimal_text(p.3 as u64);
    "(".to_owned().concat(a.as_str()).concat(", ").concat(b.as_str()).concat(", ").concat(c.as_str()).concat(
        ", ",
    ).concat(d.as_str()).concat(")")
}

/// The pixel at a place, in rows of `pitch` bytes.
pub open spec fn pixel_spec(px: Seq<u8>, pitch: int, x: int, y: int) -> (u8, u8, u8, u8) {
    let o = y * pitch + x * 4;
    (px[o], px[o + 1], px[o + 2], px[o + 3])
}

pub fn pixel_at(px: &Vec<u8>, pitch: usize, x: usize, y: usize) -> (r: (u8, u8, u8, u8))
    requires
        y * pitch + x * 4 + 4 <= px@.len(),
    ensures
        r == pixel_spec(px@, pitch as int, x as int, y as int),
{
    let n: usize = px.len();
    assert(0 <= y * pitch <= n) by (nonlinear_arith)
        requires
            y * pitch + x * 4 + 4 <= n,
    ;
    let o: usize = y * pitch + x * 4;
    (px[o], px[o + 1], px[o + 2], px[o + 3])
}

/// The test picture: red on the left, blue on the right, bytes in b, g, r, a order.
pub fn check_halves(px: &Vec<u8>, pitch: usize) -> (r: Result<(), String>)
    requires
        128 * pitch + 192 * 4 + 4 <= px@.len(),
    ensures
        ({
            let left = pixel_spec(px@, pitch as int, 64, 128);
            let right = pixel_spec(px@, pitch as int, 192, 128);
            if left != (0u8, 0u8, 255u8, 255u8) {
                r matches Err(e) && e@ == "left half should be red, got "@ + pixel_text(left)
            } else if right != (255u8, 0u8, 0u8, 255u8) {
                r matches Err(e) && e@ == "right half should be blue, got "@ + pixel_text(right)
            } else {
                r is Ok
            }
        }),
{
    let left: (u8, u8, u8, u8) = pixel_at(px, pitch, 64, 128);
    let right: (u8, u8, u8, u8) = pixel_at(px, pitch, 192, 128);
    if !(left.0 == 0 && left.1 == 0 && left.2 == 255 && left.3 == 255) {
        let got: String = write_pixel(left);
        return Err("left half should be red, got ".to_owned().concat(got.as_str()));
    }
    if !(right.0 == 255 && right.1 == 0 && right.2 == 0 && right.3 == 255) {
        let got: String = write_pixel(right);
        return Err("right half should be blue, got ".to_owned().concat(got.as_str()));
    }
    Ok(())
}

/// The same picture in the bytes the display scans out.
pub fn check_scanout(px: &Vec<u8>, pitch: usize) -> (r: Result<(), String>)
    requires
        128 * pitch + 192 * 4 + 4 <= px@.len(),
    ensures
        ({
            let left = pixel_spec(px@, pitch as int, 64, 128);
            let right = pixel_spec(px@, pitch as int, 192, 128);
            if left != (0u8, 0u8, 255u8, 255u8) || right != (255u8, 0u8, 0u8, 255u8) {
                r matches Err(e) && e@ == "dumb mapping disagrees: left "@ + pixel_text(left) + ", right "@
                    + pixel_text(right)
            } else {
                r is Ok
            }
        }),
{
    let left: (u8, u8, u8, u8) = pixel_at(px, pitch, 64, 128);
    let right: (u8, u8, u8, u8) = pixel_at(px, pitch, 192, 128);
    if left.0 == 0 && left.1 == 0 && left.2 == 255 && left.3 == 255 && right.0 == 255 && right.1 == 0 && right.2 == 0
        && right.3 == 255 {
        return Ok(());
    }
    let l: String = write_pixel(left);
    let r: String = write_pixel(right);
    Err("dumb mapping disagrees: left ".to_owned().concat(l.as_str()).concat(", right ").concat(r.as_str()))
}

} // verus!
