//! What a frame records: staging copies, then offscreen passes, then the target
//! pass. Commands are recorded into a list that the driver side plays back one by
//! one; images move between layouts by the barriers in it.
//!
//! Views handed to textured operations must be readable by shaders, or become so by
//! an earlier upload or pass of the same frame.
use vstd::prelude::*;

verus! {

// -- operations --

/// What an operation draws.
#[derive(Clone, Copy, Debug, PartialEq, Eq, Structural)]
pub enum OpKind {
    Fill,
    Tex,
    /// a texture clipped to a rounded rectangle
    TexR,
    /// a rounded ring
    Border,
    /// a halo around a rounded body
    Shadow,
    /// two textures mixed
    Xfade,
    /// one blur step over the whole target
    Blur { up: bool },
    /// a blurred backdrop clipped to a surface's coverage
    BlurMask,
}

/// One draw. `fades` says that its alpha or multiplier is below one.
#[derive(Clone, Copy, Debug, PartialEq, Eq, Structural)]
pub struct RenderOp {
    pub kind: OpKind,
    pub opaque: bool,
    pub fades: bool,
    /// the image view it samples, where it samples
    pub view: u64,
    /// the second view of a two-texture draw
    pub other: u64,
}

#[derive(Clone, Copy, Debug, PartialEq, Eq, Structural)]
pub enum Pipe {
    FillOpaque,
    FillBlend,
    TexOpaque,
    TexBlend,
    TexRBlend,
    BorderBlend,
    ShadowBlend,
    XfadeBlend,
    BlurDown,
    BlurUp,
    BlurMaskBlend,
}

#[derive(Clone, Copy, Debug, PartialEq, Eq, Structural)]
pub enum Shader {
    Fill,
    Tex,
    TexR,
    Border,
    Shadow,
    Xfade,
    BlurDown,
    BlurUp,
    BlurMask,
}

/// A pipeline layout: sampler bindings and a push constant block.
#[derive(Clone, Copy, Debug, PartialEq, Eq, Structural)]
pub enum PipeLayout {
    Fill,
    Tex,
    TexR,
    Border,
    Shadow,
    Xfade,
    Blur,
    BlurMask,
}

pub open spec fn shader_spec(p: Pipe) -> Shader {
    match p {
        Pipe::FillOpaque | Pipe::FillBlend => Shader::Fill,
        Pipe::TexOpaque | Pipe::TexBlend => Shader::Tex,
        Pipe::TexRBlend => Shader::TexR,
        Pipe::BorderBlend => Shader::Border,
        Pipe::ShadowBlend => Shader::Shadow,
        Pipe::XfadeBlend => Shader::Xfade,
        Pipe::BlurDown => Shader::BlurDown,
        Pipe::BlurUp => Shader::BlurUp,
        Pipe::BlurMaskBlend => Shader::BlurMask,
    }
}

pub open spec fn layout_spec(p: Pipe) -> PipeLayout {
    match p {
        Pipe::FillOpaque | Pipe::FillBlend => PipeLayout::Fill,
        Pipe::TexOpaque | Pipe::TexBlend => PipeLayout::Tex,
        Pipe::TexRBlend => PipeLayout::TexR,
        Pipe::BorderBlend => PipeLayout::Border,
        Pipe::ShadowBlend => PipeLayout::Shadow,
        Pipe::XfadeBlend => PipeLayout::Xfade,
        Pipe::BlurDown | Pipe::BlurUp => PipeLayout::Blur,
        Pipe::BlurMaskBlend => PipeLayout::BlurMask,
    }
}

/// Opaque fills, opaque textures and blur steps overwrite; all else blends
/// premultiplied over.
pub open spec fn pipe_blends_spec(p: Pipe) -> bool {
    !(p is FillOpaque || p is TexOpaque || p is BlurDown || p is BlurUp)
}

pub open spec fn samplers_spec(l: PipeLayout) -> u32 {
    match l {
        PipeLayout::Fill | PipeLayout::Border | PipeLayout::Shadow => 0,
        PipeLayout::Tex | PipeLayout::TexR | PipeLayout::Blur => 1,
        PipeLayout::Xfade | PipeLayout::BlurMask => 2,
    }
}

/// Size of the push constant block, in bytes.
pub open spec fn push_size_spec(l: PipeLayout) -> u32 {
    match l {
        PipeLayout::Fill => 32,
        PipeLayout::Tex => 36,
        PipeLayout::TexR => 64,
        PipeLayout::Border => 64,
        PipeLayout::Shadow => 64,
        PipeLayout::Xfade => 48,
        PipeLayout::Blur => 32,
        PipeLayout::BlurMask => 40,
    }
}

/// How a pipeline is built.
#[derive(Clone, Copy, Debug, PartialEq, Eq, Structural)]
pub struct PipeInfo {
    pub shader: Shader,
    pub layout: PipeLayout,
    pub blend: bool,
}

/// The shader, layout and blending a pipeline is created with.
pub fn pipe_info(p: Pipe) -> (r: PipeInfo)
    ensures
        r == (PipeInfo { shader: shader_spec(p), layout: layout_spec(p), blend: pipe_blends_spec(p) }),
{
    match p {
        Pipe::FillOpaque => PipeInfo { shader: Shader::Fill, layout: PipeLayout::Fill, blend: false },
        Pipe::FillBlend => PipeInfo { shader: Shader::Fill, layout: PipeLayout::Fill, blend: true },
        Pipe::TexOpaque => PipeInfo { shader: Shader::Tex, layout: PipeLayout::Tex, blend: false },
        Pipe::TexBlend => PipeInfo { shader: Shader::Tex, layout: PipeLayout::Tex, blend: true },
        Pipe::TexRBlend => PipeInfo { shader: Shader::TexR, layout: PipeLayout::TexR, blend: true },
        Pipe::BorderBlend => PipeInfo { shader: Shader::Border, layout: PipeLayout::Border, blend: true },
        Pipe::ShadowBlend => PipeInfo { shader: Shader::Shadow, layout: PipeLayout::Shadow, blend: true },
        Pipe::XfadeBlend => PipeInfo { shader: Shader::Xfade, layout: PipeLayout::Xfade, blend: true },
        Pipe::BlurDown => PipeInfo { shader: Shader::BlurDown, layout: PipeLayout::Blur, blend: false },
        Pipe::BlurUp => PipeInfo { shader: Shader::BlurUp, layout: PipeLayout::Blur, blend: false },
        Pipe::BlurMaskBlend => PipeInfo { shader: Shader::BlurMask, layout: PipeLayout::BlurMask, blend: true },
    }
}

/// The sampler count and push constant size a layout is created with.
pub fn layout_info(l: PipeLayout) -> (r: (u32, u32))
    ensures
        r == (samplers_spec(l), push_size_spec(l)),
{
    match l {
        PipeLayout::Fill => (0, 32),
        PipeLayout::Tex => (1, 36),
        PipeLayout::TexR => (1, 64),
        PipeLayout::Border => (0, 64),
        PipeLayout::Shadow => (0, 64),
        PipeLayout::Xfade => (2, 48),
        PipeLayout::Blur => (1, 32),
        PipeLayout::BlurMask => (2, 40),
    }
}

impl RenderOp {
    /// Blending only where alpha exists.
    pub open spec fn blends_spec(self) -> bool {
        match self.kind {
            OpKind::Fill => self.fades,
            OpKind::Tex => !self.opaque || self.fades,
            OpKind::Blur { .. } => false,
            _ => true,
        }
    }

    pub fn blends(&self) -> (r: bool)
        ensures
            r == self.blends_spec(),
    {
        match self.kind {
            OpKind::Fill => self.fades,
            OpKind::Tex => !self.opaque || self.fades,
            OpKind::Blur { .. } => false,
            _ => true,
        }
    }

    pub open spec fn pipe_spec(self) -> Pipe {
        match self.kind {
            OpKind::Fill => if self.blends_spec() { Pipe::FillBlend } else { Pipe::FillOpaque },
            OpKind::Tex => if self.blends_spec() { Pipe::TexBlend } else { Pipe::TexOpaque },
            OpKind::TexR => Pipe::TexRBlend,
            OpKind::Border => Pipe::BorderBlend,
            OpKind::Shadow => Pipe::ShadowBlend,
            OpKind::Xfade => Pipe::XfadeBlend,
            OpKind::Blur { up } => if up { Pipe::BlurUp } else { Pipe::BlurDown },
            OpKind::BlurMask => Pipe::BlurMaskBlend,
        }
    }

    /// The pipeline that draws it.
    pub fn pipe(&self) -> (r: Pipe)
        ensures
            r == self.pipe_spec(),
    {
        match self.kind {
            OpKind::Fill => if self.blends() { Pipe::FillBlend } else { Pipe::FillOpaque },
            OpKind::Tex => if self.blends() { Pipe::TexBlend } else { Pipe::TexOpaque },
            OpKind::TexR => Pipe::TexRBlend,
            OpKind::Border => Pipe::BorderBlend,
            OpKind::Shadow => Pipe::ShadowBlend,
            OpKind::Xfade => Pipe::XfadeBlend,
            OpKind::Blur { up } => if up { Pipe::BlurUp } else { Pipe::BlurDown },
            OpKind::BlurMask => Pipe::BlurMaskBlend,
        }
    }
}

/// Every operation is drawn by a pipeline that blends exactly when it does.
pub proof fn pipelines_blend_as_asked(op: RenderOp)
    ensures
        pipe_blends_spec(op.pipe_spec()) == op.blends_spec(),
{
}

// -- commands --

#[derive(Clone, Copy, Debug, PartialEq, Eq, Structural)]
pub enum ImageLayout {
    Undefined,
    General,
    ColorAttachment,
    ShaderRead,
    TransferDst,
    TransferSrc,
}

#[derive(Clone, Copy, Debug, PartialEq, Eq, Structural)]
pub enum Stage {
    Nothing,
    Top,
    Fragment,
    ColorOutput,
    Transfer,
}

#[derive(Clone, Copy, Debug, PartialEq, Eq, Structural)]
pub enum Access {
    Nothing,
    SampledRead,
    TransferRead,
    TransferWrite,
    ColorWrite,
    ColorReadWrite,
}

/// Whether an image changes owner with a barrier.
#[derive(Clone, Copy, Debug, PartialEq, Eq, Structural)]
pub enum Handover {
    Stays,
    /// from the display side to this queue
    Acquire,
    /// from this queue to the display side
    Release,
}

#[derive(Clone, Copy, Debug, PartialEq, Eq, Structural)]
pub struct Barrier {
    pub image: u64,
    pub from: ImageLayout,
    pub to: ImageLayout,
    pub handover: Handover,
    pub src: Stage,
    pub src_access: Access,
    pub dst: Stage,
    pub dst_access: Access,
    /// the next barrier goes into the same call
    pub joined: bool,
}

#[derive(Clone, Copy, Debug, PartialEq, Eq, Structural)]
pub enum Cmd {
    Barrier(Barrier),
    /// buffer to image
    CopyIn { buffer: u64, offset: u64, row_texels: u32, image: u64, width: u32, height: u32 },
    /// image to the readback buffer
    CopyOut { image: u64, width: u32, height: u32 },
    BeginPass { view: u64, width: u32, height: u32, clear: bool },
    EndPass,
    Bind(Pipe),
    /// the views a draw samples, in binding order
    PushViews { layout: PipeLayout, view: u64, other: Option<u64> },
    /// the push constants of the pass's operation `op`
    PushConstants { layout: PipeLayout, op: usize },
    Draw,
}

pub open spec fn views_cmds(op: RenderOp) -> Seq<Cmd> {
    let layout = layout_spec(op.pipe_spec());
    if samplers_spec(layout) == 0 {
        Seq::empty()
    } else if samplers_spec(layout) == 1 {
        seq![Cmd::PushViews { layout, view: op.view, other: None }]
    } else {
        seq![Cmd::PushViews { layout, view: op.view, other: Some(op.other) }]
    }
}

/// One operation, drawn after one that left `bound` bound.
pub open spec fn op_cmds(op: RenderOp, i: int, bound: Option<Pipe>) -> Seq<Cmd> {
    let bind = if bound == Some(op.pipe_spec()) { Seq::empty() } else { seq![Cmd::Bind(op.pipe_spec())] };
    bind + views_cmds(op) + seq![
        Cmd::PushConstants { layout: layout_spec(op.pipe_spec()), op: i as usize },
        Cmd::Draw,
    ]
}

pub open spec fn bound_before(ops: Seq<RenderOp>, i: int) -> Option<Pipe> {
    if i <= 0 { None } else { Some(ops[i - 1].pipe_spec()) }
}

/// The first `n` operations, in order. A pipeline is bound only where it changes.
pub open spec fn ops_cmds(ops: Seq<RenderOp>, n: nat) -> Seq<Cmd>
    decreases n,
{
    if n == 0 {
        Seq::empty()
    } else {
        ops_cmds(ops, (n - 1) as nat) + op_cmds(ops[n - 1], n - 1, bound_before(ops, n - 1))
    }
}

fn record_op(out: &mut Vec<Cmd>, op: RenderOp, i: usize, bound: Option<Pipe>)
    ensures
        final(out)@ == old(out)@ + op_cmds(op, i as int, bound),
{
    let ghost had = out@;
    let pipe: Pipe = op.pipe();
    let layout: PipeLayout = pipe_info(pipe).layout;
    let rebind: bool = match bound {
        Some(b) => b != pipe,
        None => true,
    };
    if rebind {
        out.push(Cmd::Bind(pipe));
    }
    let (samplers, _): (u32, u32) = layout_info(layout);
    if samplers == 1 {
        out.push(Cmd::PushViews { layout, view: op.view, other: None });
    } else if samplers == 2 {
        out.push(Cmd::PushViews { layout, view: op.view, other: Some(op.other) });
    }
    out.push(Cmd::PushConstants { layout, op: i });
    out.push(Cmd::Draw);
    assert(out@ =~= had + op_cmds(op, i as int, bound));
}

/// Records every operation of a pass.
pub fn record_ops(out: &mut Vec<Cmd>, ops: &Vec<RenderOp>)
    ensures
        final(out)@ == old(out)@ + ops_cmds(ops@, ops@.len()),
{
    let ghost had = out@;
    let mut bound: Option<Pipe> = None;
    assert(out@ =~= had + ops_cmds(ops@, 0));
    for i in 0..ops.len()
        invariant
            out@ == had + ops_cmds(ops@, i as nat),
            bound == bound_before(ops@, i as int),
    {
        let ghost before = out@;
        record_op(out, ops[i], i, bound);
        bound = Some(ops[i].pipe());
        proof {
            assert(ops_cmds(ops@, (i + 1) as nat) == ops_cmds(ops@, i as nat) + op_cmds(
                ops@[i as int],
                i as int,
                bound_before(ops@, i as int),
            ));
            assert(out@ =~= had + ops_cmds(ops@, (i + 1) as nat));
        }
    }
}

/// The pipeline bound after a list of commands.
pub open spec fn bound_after(cmds: Seq<Cmd>) -> Option<Pipe>
    decreases cmds.len(),
{
    if cmds.len() == 0 {
        None
    } else {
        match cmds.last() {
            Cmd::Bind(p) => Some(p),
            _ => bound_after(cmds.drop_last()),
        }
    }
}

/// How many draws a list of commands makes.
pub open spec fn draw_count(cmds: Seq<Cmd>) -> nat
    decreases cmds.len(),
{
    if cmds.len() == 0 {
        0
    } else {
        draw_count(cmds.drop_last()) + if cmds.last() is Draw { 1nat } else { 0nat }
    }
}

proof fn append_one(a: Seq<Cmd>, c: Cmd)
    ensures
        bound_after(a.push(c)) == (match c {
            Cmd::Bind(p) => Some(p),
            _ => bound_after(a),
        }),
        draw_count(a.push(c)) == draw_count(a) + if c is Draw { 1nat } else { 0nat },
{
    assert(a.push(c).drop_last() =~= a);
}

/// Each operation is drawn exactly once, with its own pipeline bound.
pub proof fn every_op_is_drawn_with_its_pipeline(ops: Seq<RenderOp>, n: nat)
    requires
        n <= ops.len(),
    ensures
        draw_count(ops_cmds(ops, n)) == n,
        n > 0 ==> bound_after(ops_cmds(ops, n)) == Some(ops[n - 1].pipe_spec()),
        n == 0 ==> bound_after(ops_cmds(ops, n)) is None,
    decreases n,
{
    if n > 0 {
        every_op_is_drawn_with_its_pipeline(ops, (n - 1) as nat);
        let a = ops_cmds(ops, (n - 1) as nat);
        let op = ops[n - 1];
        let bound = bound_before(ops, n - 1);
        let b1 = if bound == Some(op.pipe_spec()) { a } else { a.push(Cmd::Bind(op.pipe_spec())) };
        append_one(a, Cmd::Bind(op.pipe_spec()));
        let v = views_cmds(op);
        let b2 = if v.len() == 0 { b1 } else { b1.push(v[0]) };
        if v.len() > 0 {
            append_one(b1, v[0]);
        }
        let pc = Cmd::PushConstants { layout: layout_spec(op.pipe_spec()), op: (n - 1) as usize };
        append_one(b2, pc);
        append_one(b2.push(pc), Cmd::Draw);
        assert(ops_cmds(ops, n) =~= b2.push(pc).push(Cmd::Draw));
    }
}

// -- passes --

/// Where a frame ends up.
#[derive(Clone, Copy, Debug)]
pub struct FrameTarget {
    pub image: u64,
    pub view: u64,
    pub width: u32,
    pub height: u32,
    /// first ever use
    pub undefined: bool,
}

/// An offscreen pass recorded ahead of the main pass; the target comes out
/// readable by shaders for everything later in the same frame.
pub struct PrePass {
    pub image: u64,
    pub view: u64,
    pub width: u32,
    pub height: u32,
    pub undefined: bool,
    pub clear: bool,
    pub ops: Vec<RenderOp>,
}

/// A buffer-to-image copy waiting to record before the frame's passes: owned
/// staging, freed when the frame retires, or a view into an imported client pool,
/// never freed here.
#[derive(Clone, Copy, Debug, PartialEq, Eq, Structural)]
pub struct PreUpload {
    pub buffer: u64,
    pub memory: u64,
    pub image: u64,
    pub width: u32,
    pub height: u32,
    pub undefined: bool,
    /// byte offset of the first pixel
    pub offset: u64,
    /// row stride in texels; 0 is tightly packed
    pub row_texels: u32,
    pub owned: bool,
}

/// A sampled image.
#[derive(Clone, Copy, Debug, PartialEq, Eq, Structural)]
pub struct Texture {
    pub image: u64,
    pub memory: u64,
    pub view: u64,
    pub width: u32,
    pub height: u32,
    /// nothing was written into it yet
    pub undefined: bool,
    /// never reused; handles can be
    pub uid: u64,
}

impl PrePass {
    /// A pass into a texture, which counts as written from then on.
    pub fn new(tex: &mut Texture, clear: bool, ops: Vec<RenderOp>) -> (p: PrePass)
        ensures
            p == (PrePass {
                image: old(tex).image,
                view: old(tex).view,
                width: old(tex).width,
                height: old(tex).height,
                undefined: old(tex).undefined,
                clear,
                ops,
            }),
            *final(tex) == (Texture { undefined: false, ..*old(tex) }),
    {
        let undefined: bool = tex.undefined;
        tex.undefined = false;
        PrePass { image: tex.image, view: tex.view, width: tex.width, height: tex.height, undefined, clear, ops }
    }
}

impl Texture {
    /// The copy of staging memory filled for this texture.
    pub fn stage_upload(&mut self, buffer: u64, memory: u64) -> (r: PreUpload)
        ensures
            r == (PreUpload {
                buffer,
                memory,
                image: old(self).image,
                width: old(self).width,
                height: old(self).height,
                undefined: old(self).undefined,
                offset: 0,
                row_texels: 0,
                owned: true,
            }),
            *final(self) == (Texture { undefined: false, ..*old(self) }),
    {
        let undefined: bool = self.undefined;
        self.undefined = false;
        PreUpload {
            buffer,
            memory,
            image: self.image,
            width: self.width,
            height: self.height,
            undefined,
            offset: 0,
            row_texels: 0,
            owned: true,
        }
    }

    /// A copy straight out of an imported client pool, which outlives the frame.
    pub fn external_pre_upload(&mut self, buffer: u64, offset: u64, row_texels: u32) -> (r: PreUpload)
        ensures
            r == (PreUpload {
                buffer,
                memory: 0,
                image: old(self).image,
                width: old(self).width,
                height: old(self).height,
                undefined: old(self).undefined,
                offset,
                row_texels,
                owned: false,
            }),
            *final(self) == (Texture { undefined: false, ..*old(self) }),
    {
        let undefined: bool = self.undefined;
        self.undefined = false;
        PreUpload {
            buffer,
            memory: 0,
            image: self.image,
            width: self.width,
            height: self.height,
            undefined,
            offset,
            row_texels,
            owned: false,
        }
    }
}

/// The layout of an image that shaders read, unless nothing was written yet.
pub open spec fn sampled_from(undefined: bool) -> ImageLayout {
    if undefined { ImageLayout::Undefined } else { ImageLayout::ShaderRead }
}

pub open spec fn target_from(undefined: bool) -> ImageLayout {
    if undefined { ImageLayout::Undefined } else { ImageLayout::General }
}

pub open spec fn to_dst(u: PreUpload, joined: bool) -> Barrier {
    Barrier {
        image: u.image,
        from: sampled_from(u.undefined),
        to: ImageLayout::TransferDst,
        handover: Handover::Stays,
        src: Stage::Fragment,
        src_access: Access::SampledRead,
        dst: Stage::Transfer,
        dst_access: Access::TransferWrite,
        joined,
    }
}

pub open spec fn to_sample(u: PreUpload, joined: bool) -> Barrier {
    Barrier {
        image: u.image,
        from: ImageLayout::TransferDst,
        to: ImageLayout::ShaderRead,
        handover: Handover::Stays,
        src: Stage::Transfer,
        src_access: Access::TransferWrite,
        dst: Stage::Fragment,
        dst_access: Access::SampledRead,
        joined,
    }
}

pub open spec fn copy_in(u: PreUpload) -> Cmd {
    Cmd::CopyIn {
        buffer: u.buffer,
        offset: u.offset,
        row_texels: u.row_texels,
        image: u.image,
        width: u.width,
        height: u.height,
    }
}

pub open spec fn dst_cmds(us: Seq<PreUpload>) -> Seq<Cmd> {
    Seq::new(us.len(), |i: int| Cmd::Barrier(to_dst(us[i], i + 1 < us.len())))
}

pub open spec fn copy_cmds(us: Seq<PreUpload>) -> Seq<Cmd> {
    Seq::new(us.len(), |i: int| copy_in(us[i]))
}

pub open spec fn sample_cmds(us: Seq<PreUpload>) -> Seq<Cmd> {
    Seq::new(us.len(), |i: int| Cmd::Barrier(to_sample(us[i], i + 1 < us.len())))
}

/// All uploads together: ready the images, copy, make them readable.
pub open spec fn upload_cmds(us: Seq<PreUpload>) -> Seq<Cmd> {
    dst_cmds(us) + copy_cmds(us) + sample_cmds(us)
}

/// A pass between the barriers that take and give its target.
pub open spec fn pass_cmds(
    acquire: Barrier,
    release: Barrier,
    view: u64,
    width: u32,
    height: u32,
    clear: bool,
    ops: Seq<RenderOp>,
) -> Seq<Cmd> {
    seq![Cmd::Barrier(acquire), Cmd::BeginPass { view, width, height, clear }] + ops_cmds(ops, ops.len()) + seq![
        Cmd::EndPass,
        Cmd::Barrier(release),
    ]
}

/// An earlier frame or pass may still be sampling the target when writing starts.
pub open spec fn pre_acquire(p: PrePass) -> Barrier {
    Barrier {
        image: p.image,
        from: sampled_from(p.undefined),
        to: ImageLayout::ColorAttachment,
        handover: Handover::Stays,
        src: Stage::Fragment,
        src_access: Access::Nothing,
        dst: Stage::ColorOutput,
        dst_access: Access::ColorReadWrite,
        joined: false,
    }
}

pub open spec fn pre_release(p: PrePass) -> Barrier {
    Barrier {
        image: p.image,
        from: ImageLayout::ColorAttachment,
        to: ImageLayout::ShaderRead,
        handover: Handover::Stays,
        src: Stage::ColorOutput,
        src_access: Access::ColorWrite,
        dst: Stage::Fragment,
        dst_access: Access::SampledRead,
        joined: false,
    }
}

pub open spec fn one_pass(p: PrePass) -> Seq<Cmd> {
    pass_cmds(pre_acquire(p), pre_release(p), p.view, p.width, p.height, p.clear, p.ops@)
}

pub open spec fn passes_cmds(ps: Seq<PrePass>, n: nat) -> Seq<Cmd>
    decreases n,
{
    if n == 0 {
        Seq::empty()
    } else {
        passes_cmds(ps, (n - 1) as nat) + one_pass(ps[n - 1])
    }
}

/// Staging copies, then the offscreen passes in list order.
pub open spec fn pre_cmds(us: Seq<PreUpload>, ps: Seq<PrePass>) -> Seq<Cmd> {
    upload_cmds(us) + passes_cmds(ps, ps.len())
}

/// The target is taken from the display side, and handed back.
pub open spec fn target_acquire(t: FrameTarget, to: ImageLayout, dst: Stage, dst_access: Access) -> Barrier {
    Barrier {
        image: t.image,
        from: target_from(t.undefined),
        to,
        handover: Handover::Acquire,
        src: Stage::Nothing,
        src_access: Access::Nothing,
        dst,
        dst_access,
        joined: false,
    }
}

pub open spec fn target_release(t: FrameTarget, from: ImageLayout, src: Stage, src_access: Access) -> Barrier {
    Barrier {
        image: t.image,
        from,
        to: ImageLayout::General,
        handover: Handover::Release,
        src,
        src_access,
        dst: Stage::Nothing,
        dst_access: Access::Nothing,
        joined: false,
    }
}

/// A whole frame in one submit.
pub open spec fn frame_cmds(us: Seq<PreUpload>, ps: Seq<PrePass>, t: FrameTarget, clear: bool, ops: Seq<RenderOp>) -> Seq<
    Cmd,
> {
    pre_cmds(us, ps) + pass_cmds(
        target_acquire(t, ImageLayout::ColorAttachment, Stage::ColorOutput, Access::ColorReadWrite),
        target_release(t, ImageLayout::ColorAttachment, Stage::ColorOutput, Access::ColorReadWrite),
        t.view,
        t.width,
        t.height,
        clear,
        ops,
    )
}

fn record_uploads(out: &mut Vec<Cmd>, us: &Vec<PreUpload>)
    ensures
        final(out)@ == old(out)@ + upload_cmds(us@),
{
    let ghost had = out@;
    let n: usize = us.len();
    for i in 0..n
        invariant
            n == us@.len(),
            out@ == had + dst_cmds(us@).take(i as int),
    {
        let u: PreUpload = us[i];
        let from: ImageLayout = if u.undefined { ImageLayout::Undefined } else { ImageLayout::ShaderRead };
        out.push(
            Cmd::Barrier(
                Barrier {
                    image: u.image,
                    from,
                    to: ImageLayout::TransferDst,
                    handover: Handover::Stays,
                    src: Stage::Fragment,
                    src_access: Access::SampledRead,
                    dst: Stage::Transfer,
                    dst_access: Access::TransferWrite,
                    joined: i + 1 < n,
                },
            ),
        );
        assert(out@ =~= had + dst_cmds(us@).take(i + 1));
    }
    let ghost readied = out@;
    assert(dst_cmds(us@).take(n as int) =~= dst_cmds(us@));
    for i in 0..n
        invariant
            n == us@.len(),
            out@ == readied + copy_cmds(us@).take(i as int),
    {
        let u: PreUpload = us[i];
        out.push(
            Cmd::CopyIn {
                buffer: u.buffer,
                offset: u.offset,
                row_texels: u.row_texels,
                image: u.image,
                width: u.width,
                height: u.height,
            },
        );
        assert(out@ =~= readied + copy_cmds(us@).take(i + 1));
    }
    let ghost copied = out@;
    assert(copy_cmds(us@).take(n as int) =~= copy_cmds(us@));
    for i in 0..n
        invariant
            n == us@.len(),
            out@ == copied + sample_cmds(us@).take(i as int),
    {
        let u: PreUpload = us[i];
        out.push(
            Cmd::Barrier(
                Barrier {
                    image: u.image,
                    from: ImageLayout::TransferDst,
                    to: ImageLayout::ShaderRead,
                    handover: Handover::Stays,
                    src: Stage::Transfer,
                    src_access: Access::TransferWrite,
                    dst: Stage::Fragment,
                    dst_access: Access::SampledRead,
                    joined: i + 1 < n,
                },
            ),
        );
        assert(out@ =~= copied + sample_cmds(us@).take(i + 1));
    }
    assert(sample_cmds(us@).take(n as int) =~= sample_cmds(us@));
    assert(out@ =~= had + upload_cmds(us@));
}

/// Records a pass between its barriers.
pub fn record_pass(
    out: &mut Vec<Cmd>,
    view: u64,
    width: u32,
    height: u32,
    clear: bool,
    ops: &Vec<RenderOp>,
    acquire: Barrier,
    release: Barrier,
)
    ensures
        final(out)@ == old(out)@ + pass_cmds(acquire, release, view, width, height, clear, ops@),
{
    let ghost had = out@;
    out.push(Cmd::Barrier(acquire));
    out.push(Cmd::BeginPass { view, width, height, clear });
    let ghost begun = out@;
    record_ops(out, ops);
    let ghost drawn = out@;
    out.push(Cmd::EndPass);
    out.push(Cmd::Barrier(release));
    proof {
        let head = seq![Cmd::Barrier(acquire), Cmd::BeginPass { view, width, height, clear }];
        let body = ops_cmds(ops@, ops@.len());
        let tail = seq![Cmd::EndPass, Cmd::Barrier(release)];
        assert(begun =~= had + head);
        assert(out@ =~= drawn + tail);
        assert((had + head) + body + tail =~= had + (head + body + tail));
    }
}

/// Records staging copies, then the offscreen passes in list order.
pub fn record_pre(out: &mut Vec<Cmd>, us: &Vec<PreUpload>, ps: &Vec<PrePass>)
    ensures
        final(out)@ == old(out)@ + pre_cmds(us@, ps@),
{
    let ghost had = out@;
    record_uploads(out, us);
    let ghost up = out@;
    assert(up =~= up + passes_cmds(ps@, 0));
    for i in 0..ps.len()
        invariant
            out@ == up + passes_cmds(ps@, i as nat),
    {
        let p: &PrePass = &ps[i];
        let from: ImageLayout = if p.undefined { ImageLayout::Undefined } else { ImageLayout::ShaderRead };
        let acquire: Barrier = Barrier {
            image: p.image,
            from,
            to: ImageLayout::ColorAttachment,
            handover: Handover::Stays,
            src: Stage::Fragment,
            src_access: Access::Nothing,
            dst: Stage::ColorOutput,
            dst_access: Access::ColorReadWrite,
            joined: false,
        };
        let release: Barrier = Barrier {
            image: p.image,
            from: ImageLayout::ColorAttachment,
            to: ImageLayout::ShaderRead,
            handover: Handover::Stays,
            src: Stage::ColorOutput,
            src_access: Access::ColorWrite,
            dst: Stage::Fragment,
            dst_access: Access::SampledRead,
            joined: false,
        };
        record_pass(out, p.view, p.width, p.height, p.clear, &p.ops, acquire, release);
        proof {
            assert(passes_cmds(ps@, (i + 1) as nat) == passes_cmds(ps@, i as nat) + one_pass(ps@[i as int]));
            let a = passes_cmds(ps@, i as nat);
            let b = one_pass(ps@[i as int]);
            assert(up + (a + b) =~= (up + a) + b);
        }
    }
    proof {
        let a = upload_cmds(us@);
        let b = passes_cmds(ps@, ps@.len());
        assert((had + a) + b =~= had + (a + b));
    }
}

/// The commands of a whole frame: staging copies, offscreen passes in list order,
/// then the scanout pass.
pub fn render_frame(
    uploads: &Vec<PreUpload>,
    passes: &Vec<PrePass>,
    target: &FrameTarget,
    clear: bool,
    ops: &Vec<RenderOp>,
) -> (r: Vec<Cmd>)
    ensures
        r@ == frame_cmds(uploads@, passes@, *target, clear, ops@),
{
    let mut out: Vec<Cmd> = Vec::new();
    record_pre(&mut out, uploads, passes);
    assert(out@ =~= pre_cmds(uploads@, passes@));
    let from: ImageLayout = if target.undefined { ImageLayout::Undefined } else { ImageLayout::General };
    let acquire: Barrier = Barrier {
        image: target.image,
        from,
        to: ImageLayout::ColorAttachment,
        handover: Handover::Acquire,
        src: Stage::Nothing,
        src_access: Access::Nothing,
        dst: Stage::ColorOutput,
        dst_access: Access::ColorReadWrite,
        joined: false,
    };
    let release: Barrier = Barrier {
        image: target.image,
        from: ImageLayout::ColorAttachment,
        to: ImageLayout::General,
        handover: Handover::Release,
        src: Stage::ColorOutput,
        src_access: Access::ColorReadWrite,
        dst: Stage::Nothing,
        dst_access: Access::Nothing,
        joined: false,
    };
    record_pass(&mut out, target.view, target.width, target.height, clear, ops, acquire, release);
    out
}

/// A frame without uploads or offscreen passes.
pub fn render(target: &FrameTarget, clear: bool, ops: &Vec<RenderOp>) -> (r: Vec<Cmd>)
    ensures
        r@ == frame_cmds(Seq::empty(), Seq::empty(), *target, clear, ops@),
{
    let uploads: Vec<PreUpload> = Vec::new();
    let passes: Vec<PrePass> = Vec::new();
    render_frame(&uploads, &passes, target, clear, ops)
}

/// A fullscreen client buffer becomes the whole frame: one copy into the target,
/// no pass.
pub open spec fn copy_frame_cmds(src: u64, offset: u64, row_texels: u32, t: FrameTarget) -> Seq<Cmd> {
    seq![
        Cmd::Barrier(target_acquire(t, ImageLayout::TransferDst, Stage::Transfer, Access::TransferWrite)),
        Cmd::CopyIn { buffer: src, offset, row_texels, image: t.image, width: t.width, height: t.height },
        Cmd::Barrier(target_release(t, ImageLayout::TransferDst, Stage::Transfer, Access::TransferWrite)),
    ]
}

pub fn copy_frame(src: u64, offset: u64, row_texels: u32, target: &FrameTarget) -> (r: Vec<Cmd>)
    ensures
        r@ == copy_frame_cmds(src, offset, row_texels, *target),
{
    let from: ImageLayout = if target.undefined { ImageLayout::Undefined } else { ImageLayout::General };
    let mut out: Vec<Cmd> = Vec::new();
    out.push(
        Cmd::Barrier(
            Barrier {
                image: target.image,
                from,
                to: ImageLayout::TransferDst,
                handover: Handover::Acquire,
                src: Stage::Nothing,
                src_access: Access::Nothing,
                dst: Stage::Transfer,
                dst_access: Access::TransferWrite,
                joined: false,
            },
        ),
    );
    out.push(
        Cmd::CopyIn {
            buffer: src,
            offset,
            row_texels,
            image: target.image,
            width: target.width,
            height: target.height,
        },
    );
    out.push(
        Cmd::Barrier(
            Barrier {
                image: target.image,
                from: ImageLayout::TransferDst,
                to: ImageLayout::General,
                handover: Handover::Release,
                src: Stage::Transfer,
                src_access: Access::TransferWrite,
                dst: Stage::Nothing,
                dst_access: Access::Nothing,
                joined: false,
            },
        ),
    );
    assert(out@ =~= copy_frame_cmds(src, offset, row_texels, *target));
    out
}

/// A frame into the capture image, copied out to the readback buffer. Every capture
/// clears, so old contents are discarded.
pub open spec fn read_frame_cmds(
    us: Seq<PreUpload>,
    ps: Seq<PrePass>,
    image: u64,
    view: u64,
    width: u32,
    height: u32,
    ops: Seq<RenderOp>,
) -> Seq<Cmd> {
    pre_cmds(us, ps) + pass_cmds(
        capture_acquire(image),
        capture_release(image),
        view,
        width,
        height,
        true,
        ops,
    ).push(Cmd::CopyOut { image, width, height })
}

pub open spec fn capture_acquire(image: u64) -> Barrier {
    Barrier {
        image,
        from: ImageLayout::Undefined,
        to: ImageLayout::ColorAttachment,
        handover: Handover::Stays,
        src: Stage::Nothing,
        src_access: Access::Nothing,
        dst: Stage::ColorOutput,
        dst_access: Access::ColorReadWrite,
        joined: false,
    }
}

pub open spec fn capture_release(image: u64) -> Barrier {
    Barrier {
        image,
        from: ImageLayout::ColorAttachment,
        to: ImageLayout::TransferSrc,
        handover: Handover::Stays,
        src: Stage::ColorOutput,
        src_access: Access::ColorWrite,
        dst: Stage::Transfer,
        dst_access: Access::TransferRead,
        joined: false,
    }
}

pub fn read_frame(
    uploads: &Vec<PreUpload>,
    passes: &Vec<PrePass>,
    image: u64,
    view: u64,
    width: u32,
    height: u32,
    ops: &Vec<RenderOp>,
) -> (r: Vec<Cmd>)
    ensures
        r@ == read_frame_cmds(uploads@, passes@, image, view, width, height, ops@),
{
    let mut out: Vec<Cmd> = Vec::new();
    record_pre(&mut out, uploads, passes);
    assert(out@ =~= pre_cmds(uploads@, passes@));
    let ghost pre = out@;
    let acquire: Barrier = Barrier {
        image,
        from: ImageLayout::Undefined,
        to: ImageLayout::ColorAttachment,
        handover: Handover::Stays,
        src: Stage::Nothing,
        src_access: Access::Nothing,
        dst: Stage::ColorOutput,
        dst_access: Access::ColorReadWrite,
        joined: false,
    };
    let release: Barrier = Barrier {
        image,
        from: ImageLayout::ColorAttachment,
        to: ImageLayout::TransferSrc,
        handover: Handover::Stays,
        src: Stage::ColorOutput,
        src_access: Access::ColorWrite,
        dst: Stage::Transfer,
        dst_access: Access::TransferRead,
        joined: false,
    };
    record_pass(&mut out, view, width, height, true, ops, acquire, release);
    let ghost pass = pass_cmds(acquire, release, view, width, height, true, ops@);
    out.push(Cmd::CopyOut { image, width, height });
    assert(out@ =~= pre + pass.push(Cmd::CopyOut { image, width, height }));
    out
}

/// Pulling a target's pixels: plain layout changes, no handover.
pub open spec fn readback_cmds(t: FrameTarget) -> Seq<Cmd> {
    seq![
        Cmd::Barrier(
            Barrier {
                image: t.image,
                from: ImageLayout::General,
                to: ImageLayout::TransferSrc,
                handover: Handover::Stays,
                src: Stage::Nothing,
                src_access: Access::Nothing,
                dst: Stage::Transfer,
                dst_access: Access::TransferRead,
                joined: false,
            },
        ),
        Cmd::CopyOut { image: t.image, width: t.width, height: t.height },
        Cmd::Barrier(
            Barrier {
                image: t.image,
                from: ImageLayout::TransferSrc,
                to: ImageLayout::General,
                handover: Handover::Stays,
                src: Stage::Transfer,
                src_access: Access::TransferRead,
                dst: Stage::Nothing,
                dst_access: Access::Nothing,
                joined: false,
            },
        ),
    ]
}

pub fn readback(target: &FrameTarget) -> (r: Vec<Cmd>)
    ensures
        r@ == readback_cmds(*target),
{
    let mut out: Vec<Cmd> = Vec::new();
    out.push(
        Cmd::Barrier(
            Barrier {
                image: target.image,
                from: ImageLayout::General,
                to: ImageLayout::TransferSrc,
                handover: Handover::Stays,
                src: Stage::Nothing,
                src_access: Access::Nothing,
                dst: Stage::Transfer,
                dst_access: Access::TransferRead,
                joined: false,
            },
        ),
    );
    out.push(Cmd::CopyOut { image: target.image, width: target.width, height: target.height });
    out.push(
        Cmd::Barrier(
            Barrier {
                image: target.image,
                from: ImageLayout::TransferSrc,
                to: ImageLayout::General,
                handover: Handover::Stays,
                src: Stage::Transfer,
                src_access: Access::TransferRead,
                dst: Stage::Nothing,
                dst_access: Access::Nothing,
                joined: false,
            },
        ),
    );
    assert(out@ =~= readback_cmds(*target));
    out
}

/// A commit-time upload: the commands of one copy, recorded on their own. The
/// texture counts as written once they are submitted.
pub fn record_upload(tex: &Texture, src: u64, offset: u64, row_texels: u32) -> (r: Vec<Cmd>)
    ensures
        r@ == upload_cmds(
            seq![
                PreUpload {
                    buffer: src,
                    memory: 0,
                    image: tex.image,
                    width: tex.width,
                    height: tex.height,
                    undefined: tex.undefined,
                    offset,
                    row_texels,
                    owned: false,
                },
            ],
        ),
{
    let mut one: Vec<PreUpload> = Vec::new();
    one.push(
        PreUpload {
            buffer: src,
            memory: 0,
            image: tex.image,
            width: tex.width,
            height: tex.height,
            undefined: tex.undefined,
            offset,
            row_texels,
            owned: false,
        },
    );
    let ghost u = one@[0];
    assert(one@ =~= seq![u]);
    let mut out: Vec<Cmd> = Vec::new();
    record_uploads(&mut out, &one);
    assert(out@ =~= upload_cmds(one@));
    out
}

/// An imported image becomes readable by shaders once, at import.
pub open spec fn transition_sampled_spec(image: u64) -> Barrier {
    Barrier {
        image,
        from: ImageLayout::Undefined,
        to: ImageLayout::ShaderRead,
        handover: Handover::Stays,
        src: Stage::Top,
        src_access: Access::Nothing,
        dst: Stage::Fragment,
        dst_access: Access::SampledRead,
        joined: false,
    }
}

pub fn transition_sampled(image: u64) -> (r: Barrier)
    ensures
        r == transition_sampled_spec(image),
{
    Barrier {
        image,
        from: ImageLayout::Undefined,
        to: ImageLayout::ShaderRead,
        handover: Handover::Stays,
        src: Stage::Top,
        src_access: Access::Nothing,
        dst: Stage::Fragment,
        dst_access: Access::SampledRead,
        joined: false,
    }
}

// -- layouts --

/// The layout of an image after a list of commands, from `start`.
pub open spec fn layout_after(cmds: Seq<Cmd>, image: u64, start: ImageLayout) -> ImageLayout
    decreases cmds.len(),
{
    if cmds.len() == 0 {
        start
    } else {
        match cmds.last() {
            Cmd::Barrier(b) => if b.image == image {
                b.to
            } else {
                layout_after(cmds.drop_last(), image, start)
            },
            _ => layout_after(cmds.drop_last(), image, start),
        }
    }
}

/// Every barrier on the image names the layout it is in, or discards its contents.
pub open spec fn sound(cmds: Seq<Cmd>, image: u64, start: ImageLayout) -> bool
    decreases cmds.len(),
{
    if cmds.len() == 0 {
        true
    } else {
        &&& sound(cmds.drop_last(), image, start)
        &&& match cmds.last() {
            Cmd::Barrier(b) => b.image == image ==> b.from is Undefined || b.from == layout_after(
                cmds.drop_last(),
                image,
                start,
            ),
            _ => true,
        }
    }
}

proof fn chained(a: Seq<Cmd>, b: Seq<Cmd>, image: u64, start: ImageLayout)
    ensures
        layout_after(a + b, image, start) == layout_after(b, image, layout_after(a, image, start)),
        sound(a + b, image, start) == (sound(a, image, start) && sound(
            b,
            image,
            layout_after(a, image, start),
        )),
    decreases b.len(),
{
    if b.len() == 0 {
        assert(a + b =~= a);
    } else {
        chained(a, b.drop_last(), image, start);
        assert((a + b).drop_last() =~= a + b.drop_last());
        assert((a + b).last() == b.last());
    }
}

/// Commands without barriers leave layouts alone.
proof fn quiet(cmds: Seq<Cmd>, image: u64, start: ImageLayout)
    requires
        forall|i: int| 0 <= i < cmds.len() ==> !(#[trigger] cmds[i] is Barrier),
    ensures
        layout_after(cmds, image, start) == start,
        sound(cmds, image, start),
    decreases cmds.len(),
{
    if cmds.len() > 0 {
        assert(!(cmds[cmds.len() - 1] is Barrier));
        assert forall|i: int| 0 <= i < cmds.drop_last().len() implies !(#[trigger] cmds.drop_last()[i] is Barrier) by {
            assert(!(cmds[i] is Barrier));
        }
        quiet(cmds.drop_last(), image, start);
    }
}

proof fn ops_are_quiet(ops: Seq<RenderOp>, n: nat)
    requires
        n <= ops.len(),
    ensures
        forall|i: int| 0 <= i < ops_cmds(ops, n).len() ==> !(#[trigger] ops_cmds(ops, n)[i] is Barrier),
    decreases n,
{
    if n > 0 {
        ops_are_quiet(ops, (n - 1) as nat);
        let a = ops_cmds(ops, (n - 1) as nat);
        let b = op_cmds(ops[n - 1], n - 1, bound_before(ops, n - 1));
        assert forall|i: int| 0 <= i < ops_cmds(ops, n).len() implies !(#[trigger] ops_cmds(ops, n)[i] is Barrier) by {
            if i < a.len() {
                assert(ops_cmds(ops, n)[i] == a[i]);
            } else {
                assert(ops_cmds(ops, n)[i] == b[i - a.len()]);
            }
        }
    }
}

/// A pass leaves its target where the release says and other images alone.
proof fn pass_layouts(
    acquire: Barrier,
    release: Barrier,
    view: u64,
    width: u32,
    height: u32,
    clear: bool,
    ops: Seq<RenderOp>,
    image: u64,
    start: ImageLayout,
)
    requires
        acquire.image == release.image,
        release.from == acquire.to,
        acquire.image == image ==> acquire.from is Undefined || acquire.from == start,
    ensures
        ({
            let cmds = pass_cmds(acquire, release, view, width, height, clear, ops);
            &&& layout_after(cmds, image, start) == (if acquire.image == image { release.to } else { start })
            &&& sound(cmds, image, start)
        }),
{
    let begin = Cmd::BeginPass { view, width, height, clear };
    let head = seq![Cmd::Barrier(acquire), begin];
    let body = ops_cmds(ops, ops.len());
    let tail = seq![Cmd::EndPass, Cmd::Barrier(release)];
    let mid = if acquire.image == image { acquire.to } else { start };
    reveal_with_fuel(layout_after, 3);
    reveal_with_fuel(sound, 3);
    assert(head.drop_last() =~= seq![Cmd::Barrier(acquire)]);
    assert(head.drop_last().drop_last() =~= Seq::<Cmd>::empty());
    assert(layout_after(head, image, start) == mid);
    ops_are_quiet(ops, ops.len());
    quiet(body, image, mid);
    chained(head, body, image, start);
    assert(tail.drop_last() =~= seq![Cmd::EndPass]);
    assert(tail.drop_last().drop_last() =~= Seq::<Cmd>::empty());
    chained(head + body, tail, image, start);
}

/// The slot of the upload into an image, in a list of barriers over `us`.
proof fn barrier_layouts(cmds: Seq<Cmd>, us: Seq<PreUpload>, image: u64, from: ImageLayout, to: ImageLayout, start: ImageLayout)
    requires
        cmds.len() == us.len(),
        forall|i: int|
            0 <= i < us.len() ==> (#[trigger] cmds[i] matches Cmd::Barrier(b) && b.image == us[i].image && b.to == to
                && (us[i].image == image ==> b.from is Undefined || b.from == from)),
        forall|i: int, j: int| 0 <= i < j < us.len() ==> (#[trigger] us[i]).image != (#[trigger] us[j]).image,
        (exists|i: int| 0 <= i < us.len() && (#[trigger] us[i]).image == image && (cmds[i] matches Cmd::Barrier(b)
            && !(b.from is Undefined))) ==> start == from,
    ensures
        sound(cmds, image, start),
        layout_after(cmds, image, start) == (if exists|i: int|
            0 <= i < us.len() && (#[trigger] us[i]).image == image {
            to
        } else {
            start
        }),
    decreases us.len(),
{
    if us.len() > 0 {
        let n = us.len() - 1;
        let fewer = us.drop_last();
        assert forall|i: int| 0 <= i < fewer.len() implies (#[trigger] cmds.drop_last()[i] matches Cmd::Barrier(b)
            && b.image == fewer[i].image && b.to == to && (fewer[i].image == image ==> b.from is Undefined || b.from
            == from)) by {
            assert(cmds[i] == cmds.drop_last()[i]);
        }
        if exists|i: int|
            0 <= i < fewer.len() && (#[trigger] fewer[i]).image == image && (cmds.drop_last()[i] matches Cmd::Barrier(b)
                && !(b.from is Undefined)) {
            let i = choose|i: int|
                0 <= i < fewer.len() && (#[trigger] fewer[i]).image == image && (cmds.drop_last()[i] matches Cmd::Barrier(
                    b,
                ) && !(b.from is Undefined));
            assert(us[i].image == image && cmds[i] == cmds.drop_last()[i]);
        }
        barrier_layouts(cmds.drop_last(), fewer, image, from, to, start);
        let last = cmds[n];
        assert(last is Barrier);
        if us[n].image == image {
            assert forall|i: int| 0 <= i < fewer.len() implies (#[trigger] fewer[i]).image != image by {
                assert(us[i].image != us[n].image);
            }
            assert(layout_after(cmds.drop_last(), image, start) == start);
        } else if exists|i: int| 0 <= i < us.len() && (#[trigger] us[i]).image == image {
            let i = choose|i: int| 0 <= i < us.len() && (#[trigger] us[i]).image == image;
            assert(fewer[i].image == image);
        } else {
            assert forall|i: int| 0 <= i < fewer.len() implies (#[trigger] fewer[i]).image != image by {
                assert(us[i].image != image);
            }
        }
    }
}

/// No image is uploaded into twice.
pub open spec fn distinct_images(us: Seq<PreUpload>) -> bool {
    forall|i: int, j: int| 0 <= i < j < us.len() ==> (#[trigger] us[i]).image != (#[trigger] us[j]).image
}

pub open spec fn uploaded(us: Seq<PreUpload>, image: u64) -> bool {
    exists|i: int| 0 <= i < us.len() && (#[trigger] us[i]).image == image
}

pub open spec fn rendered(ps: Seq<PrePass>, image: u64) -> bool {
    exists|i: int| 0 <= i < ps.len() && (#[trigger] ps[i]).image == image
}

/// The marks on the uploads and passes of an image agree with its layout.
pub open spec fn marked_right(us: Seq<PreUpload>, ps: Seq<PrePass>, image: u64, start: ImageLayout) -> bool {
    &&& forall|i: int| 0 <= i < us.len() && (#[trigger] us[i]).image == image ==> us[i].undefined || start is ShaderRead
    &&& forall|i: int| 0 <= i < ps.len() && (#[trigger] ps[i]).image == image ==> ps[i].undefined || start is ShaderRead
        || uploaded(us, image)
}

proof fn upload_layouts(us: Seq<PreUpload>, image: u64, start: ImageLayout)
    requires
        distinct_images(us),
        forall|i: int| 0 <= i < us.len() && (#[trigger] us[i]).image == image ==> us[i].undefined || start is ShaderRead,
    ensures
        sound(upload_cmds(us), image, start),
        layout_after(upload_cmds(us), image, start) == (if uploaded(us, image) {
            ImageLayout::ShaderRead
        } else {
            start
        }),
{
    let a = dst_cmds(us);
    let b = copy_cmds(us);
    let c = sample_cmds(us);
    barrier_layouts(a, us, image, ImageLayout::ShaderRead, ImageLayout::TransferDst, start);
    let mid = layout_after(a, image, start);
    quiet(b, image, mid);
    chained(a, b, image, start);
    barrier_layouts(c, us, image, ImageLayout::TransferDst, ImageLayout::ShaderRead, mid);
    chained(a + b, c, image, start);
}

proof fn passes_layouts(ps: Seq<PrePass>, n: nat, image: u64, start: ImageLayout)
    requires
        n <= ps.len(),
        forall|i: int| 0 <= i < n && (#[trigger] ps[i]).image == image ==> ps[i].undefined || start is ShaderRead,
    ensures
        sound(passes_cmds(ps, n), image, start),
        layout_after(passes_cmds(ps, n), image, start) == (if exists|i: int|
            0 <= i < n && (#[trigger] ps[i]).image == image {
            ImageLayout::ShaderRead
        } else {
            start
        }),
    decreases n,
{
    if n > 0 {
        let m = (n - 1) as nat;
        passes_layouts(ps, m, image, start);
        let p = ps[n - 1];
        let so_far = layout_after(passes_cmds(ps, m), image, start);
        pass_layouts(pre_acquire(p), pre_release(p), p.view, p.width, p.height, p.clear, p.ops@, image, so_far);
        chained(passes_cmds(ps, m), one_pass(p), image, start);
        if exists|i: int| 0 <= i < m && (#[trigger] ps[i]).image == image {
            let i = choose|i: int| 0 <= i < m && (#[trigger] ps[i]).image == image;
            assert(0 <= i < n && ps[i].image == image);
        }
    }
}

/// After the copies and offscreen passes of a frame every image they wrote can be
/// sampled, every other image is as it was, and no barrier names a layout the image
/// was not in.
pub proof fn written_images_are_sampleable(us: Seq<PreUpload>, ps: Seq<PrePass>, image: u64, start: ImageLayout)
    requires
        distinct_images(us),
        marked_right(us, ps, image, start),
    ensures
        sound(pre_cmds(us, ps), image, start),
        layout_after(pre_cmds(us, ps), image, start) == (if uploaded(us, image) || rendered(ps, image) {
            ImageLayout::ShaderRead
        } else {
            start
        }),
{
    upload_layouts(us, image, start);
    let mid = layout_after(upload_cmds(us), image, start);
    passes_layouts(ps, ps.len(), image, mid);
    chained(upload_cmds(us), passes_cmds(ps, ps.len()), image, start);
}

/// A frame takes its target in the layout it was left in and hands it back ready
/// for the display.
pub proof fn targets_are_handed_back(
    us: Seq<PreUpload>,
    ps: Seq<PrePass>,
    t: FrameTarget,
    clear: bool,
    ops: Seq<RenderOp>,
    start: ImageLayout,
)
    requires
        distinct_images(us),
        !uploaded(us, t.image),
        !rendered(ps, t.image),
        t.undefined || start is General,
    ensures
        sound(frame_cmds(us, ps, t, clear, ops), t.image, start),
        layout_after(frame_cmds(us, ps, t, clear, ops), t.image, start) is General,
{
    written_images_are_sampleable(us, ps, t.image, start);
    let acquire = target_acquire(t, ImageLayout::ColorAttachment, Stage::ColorOutput, Access::ColorReadWrite);
    let release = target_release(t, ImageLayout::ColorAttachment, Stage::ColorOutput, Access::ColorReadWrite);
    pass_layouts(acquire, release, t.view, t.width, t.height, clear, ops, t.image, start);
    chained(
        pre_cmds(us, ps),
        pass_cmds(acquire, release, t.view, t.width, t.height, clear, ops),
        t.image,
        start,
    );
}

} // verus!
