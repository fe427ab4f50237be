//! What recorded commands come to when a device plays them back: which pictures are
//! copied, which passes run, and what each draw puts where.
use crate::render::renderer::{
    bound_before, capture_acquire, capture_release, copy_cmds, copy_frame_cmds, copy_in, dst_cmds, frame_cmds, layout_after,
    layout_spec, one_pass, op_cmds, ops_cmds, pass_cmds, passes_cmds, pipe_blends_spec, pre_acquire, pre_cmds, pre_release,
    push_size_spec, read_frame_cmds, readback_cmds, sample_cmds, samplers_spec, shader_spec, sound, target_acquire,
    target_release, upload_cmds, views_cmds, Access, Barrier, Cmd, FrameTarget, ImageLayout, OpKind, Pipe, PipeLayout, PrePass,
    PreUpload, RenderOp, Stage,
};
use vstd::prelude::*;

verus! {

/// The target of a pass.
#[verifier::ext_equal]
pub ghost struct Pass {
    pub view: u64,
    pub width: u32,
    pub height: u32,
    pub clear: bool,
}

/// One draw as the device carries it out.
#[verifier::ext_equal]
pub ghost struct Drawn {
    /// the pass it is in
    pub pass: Option<Pass>,
    /// the pipeline that is bound
    pub pipe: Option<Pipe>,
    /// the views that were pushed for it, each with the layout it was pushed for
    pub views: Seq<(PipeLayout, u64)>,
    /// the operation whose constants were pushed for it, and the layout
    pub constants: Option<(PipeLayout, usize)>,
}

/// One copy into an image, with how many passes ran before it.
#[verifier::ext_equal]
pub ghost struct Copied {
    pub buffer: u64,
    pub offset: u64,
    pub row_texels: u32,
    pub image: u64,
    pub width: u32,
    pub height: u32,
    pub passes: nat,
}

/// A device while it plays commands.
#[verifier::ext_equal]
pub ghost struct Device {
    pub pass: Option<Pass>,
    pub pipe: Option<Pipe>,
    pub views: Seq<(PipeLayout, u64)>,
    pub constants: Option<(PipeLayout, usize)>,
    pub drawn: Seq<Drawn>,
    pub copied: Seq<Copied>,
    /// the passes that ran, each with how many draws came before it
    pub passes: Seq<(Pass, nat)>,
    /// images read back, each with their size and how many draws came before
    pub read: Seq<(u64, u32, u32, nat)>,
}

/// A device before its first command.
pub open spec fn idle() -> Device {
    Device {
        pass: None,
        pipe: None,
        views: Seq::empty(),
        constants: None,
        drawn: Seq::empty(),
        copied: Seq::empty(),
        passes: Seq::empty(),
        read: Seq::empty(),
    }
}

/// One command. A draw uses up what was pushed for it; a bound pipeline stays bound.
pub open spec fn stepped(d: Device, c: Cmd) -> Device {
    match c {
        Cmd::Barrier(_) => d,
        Cmd::CopyIn { buffer, offset, row_texels, image, width, height } => Device {
            copied: d.copied.push(
                Copied { buffer, offset, row_texels, image, width, height, passes: d.passes.len() },
            ),
            ..d
        },
        Cmd::CopyOut { image, width, height } => Device {
            read: d.read.push((image, width, height, d.drawn.len())),
            ..d
        },
        Cmd::BeginPass { view, width, height, clear } => Device {
            pass: Some(Pass { view, width, height, clear }),
            passes: d.passes.push((Pass { view, width, height, clear }, d.drawn.len())),
            ..d
        },
        Cmd::EndPass => Device { pass: None, ..d },
        Cmd::Bind(p) => Device { pipe: Some(p), ..d },
        Cmd::PushViews { layout, view, other } => Device {
            views: match other {
                None => seq![(layout, view)],
                Some(o) => seq![(layout, view), (layout, o)],
            },
            ..d
        },
        Cmd::PushConstants { layout, op } => Device { constants: Some((layout, op)), ..d },
        Cmd::Draw => Device {
            views: Seq::empty(),
            constants: None,
            drawn: d.drawn.push(Drawn { pass: d.pass, pipe: d.pipe, views: d.views, constants: d.constants }),
            ..d
        },
    }
}

/// A device after it played a list of commands.
pub open spec fn played(d: Device, cmds: Seq<Cmd>) -> Device
    decreases cmds.len(),
{
    if cmds.len() == 0 { d } else { stepped(played(d, cmds.drop_last()), cmds.last()) }
}

proof fn played_on(d: Device, a: Seq<Cmd>, b: Seq<Cmd>)
    ensures
        played(d, a + b) == played(played(d, a), b),
    decreases b.len(),
{
    if b.len() == 0 {
        assert(a + b =~= a);
    } else {
        played_on(d, a, b.drop_last());
        assert((a + b).drop_last() =~= a + b.drop_last());
        assert((a + b).last() == b.last());
    }
}

proof fn played_one(d: Device, a: Seq<Cmd>, c: Cmd)
    ensures
        played(d, a.push(c)) == stepped(played(d, a), c),
{
    assert(a.push(c).drop_last() =~= a);
}

/// A draw does what its operation asks for: the shader of its kind runs, blending where
/// something shines through, over the textures that the kind samples and the constants of
/// the operation in slot `k`, all laid out as the pipeline expects.
pub open spec fn carries_out(d: Drawn, pass: Pass, op: RenderOp, k: int) -> bool {
    &&& d.pass == Some(pass)
    &&& d.pipe is Some
    &&& match op.kind {
        OpKind::Fill => shader_spec(d.pipe->0) is Fill,
        OpKind::Tex => shader_spec(d.pipe->0) is Tex,
        OpKind::TexR => shader_spec(d.pipe->0) is TexR,
        OpKind::Border => shader_spec(d.pipe->0) is Border,
        OpKind::Shadow => shader_spec(d.pipe->0) is Shadow,
        OpKind::Xfade => shader_spec(d.pipe->0) is Xfade,
        OpKind::Blur { up } => if up { shader_spec(d.pipe->0) is BlurUp } else { shader_spec(d.pipe->0) is BlurDown },
        OpKind::BlurMask => shader_spec(d.pipe->0) is BlurMask,
    }
    &&& pipe_blends_spec(d.pipe->0) == match op.kind {
        OpKind::Fill => op.fades,
        OpKind::Tex => op.fades || !op.opaque,
        OpKind::Blur { .. } => false,
        _ => true,
    }
    &&& match op.kind {
        OpKind::Fill | OpKind::Border | OpKind::Shadow => d.views.len() == 0,
        OpKind::Xfade | OpKind::BlurMask => d.views.len() == 2 && d.views[0].1 == op.view && d.views[1].1 == op.other,
        _ => d.views.len() == 1 && d.views[0].1 == op.view,
    }
    &&& forall|i: int| 0 <= i < d.views.len() ==> (#[trigger] d.views[i]).0 == layout_spec(d.pipe->0)
    &&& d.constants == Some((layout_spec(d.pipe->0), k as usize))
}

/// The draws from `at` on are those of a pass, one per operation, in order.
pub open spec fn all_carried_out(drawn: Seq<Drawn>, at: nat, pass: Pass, ops: Seq<RenderOp>) -> bool {
    &&& at + ops.len() <= drawn.len()
    &&& forall|k: int| 0 <= k < ops.len() ==> carries_out(#[trigger] drawn[at + k], pass, ops[k], k)
}

/// The pipeline of an operation runs the shader of its kind, and of no other: operations that
/// differ in kind never share a shader.
pub proof fn kinds_never_share_a_shader(a: RenderOp, b: RenderOp)
    ensures
        shader_spec(a.pipe_spec()) == shader_spec(b.pipe_spec()) <==> a.kind == b.kind,
        a.kind is Fill ==> shader_spec(a.pipe_spec()) is Fill,
        a.kind is Tex ==> shader_spec(a.pipe_spec()) is Tex,
        a.kind is TexR ==> shader_spec(a.pipe_spec()) is TexR,
        a.kind is Border ==> shader_spec(a.pipe_spec()) is Border,
        a.kind is Shadow ==> shader_spec(a.pipe_spec()) is Shadow,
        a.kind is Xfade ==> shader_spec(a.pipe_spec()) is Xfade,
        a.kind is BlurMask ==> shader_spec(a.pipe_spec()) is BlurMask,
        a.kind == (OpKind::Blur { up: true }) ==> shader_spec(a.pipe_spec()) is BlurUp,
        a.kind == (OpKind::Blur { up: false }) ==> shader_spec(a.pipe_spec()) is BlurDown,
{
}

/// The constants of a pipeline hold the floats of its shader, four bytes each: a box of
/// four, and with it a colour, a texture window and a multiplier, or what else the kind has.
/// Pipelines with one layout have the same constants and samplers.
pub proof fn constants_hold_the_floats_of_the_shader(op: RenderOp)
    ensures
        push_size_spec(layout_spec(op.pipe_spec())) == 4 * match op.kind {
            // box, colour
            OpKind::Fill => 4 + 4,
            // box, texture window, multiplier
            OpKind::Tex => 4 + 4 + 1,
            // box, texture window, multiplier and padding, rounded box, radius and softness
            OpKind::TexR => 4 + 4 + 2 + 4 + 2,
            // box, ring, radius with width, softness and padding, colour
            OpKind::Border => 4 + 4 + 4 + 4,
            // box, body, radius with range, power and softness, colour
            OpKind::Shadow => 4 + 4 + 4 + 4,
            // box, progress with radius, softness and padding, rounded box
            OpKind::Xfade => 4 + 4 + 4,
            // box, half a pixel, two extras
            OpKind::Blur { .. } => 4 + 2 + 2,
            // box, backdrop window, threshold and multiplier
            OpKind::BlurMask => 4 + 4 + 2,
        },
        samplers_spec(layout_spec(op.pipe_spec())) == match op.kind {
            OpKind::Fill | OpKind::Border | OpKind::Shadow => 0int,
            OpKind::Xfade | OpKind::BlurMask => 2,
            _ => 1,
        },
{
}

proof fn one_op(d: Device, op: RenderOp, i: int, bound: Option<Pipe>)
    requires
        d.views.len() == 0,
        bound is None || bound == d.pipe,
    ensures
        ({
            let e = played(d, op_cmds(op, i, bound));
            &&& e == (Device { pipe: Some(op.pipe_spec()), constants: None, drawn: e.drawn, ..d })
            &&& e.drawn.len() == d.drawn.len() + 1
            &&& e.drawn.drop_last() == d.drawn
            &&& d.pass is Some ==> carries_out(e.drawn.last(), d.pass->0, op, i)
        }),
{
    let p = op.pipe_spec();
    let none = Seq::<Cmd>::empty();
    let bind = if bound == Some(p) { none } else { none.push(Cmd::Bind(p)) };
    played_one(d, none, Cmd::Bind(p));
    let b = played(d, bind);
    assert(b == (Device { pipe: Some(p), ..d }));
    let v = views_cmds(op);
    let seen = if v.len() == 0 { bind } else { bind.push(v[0]) };
    if v.len() > 0 {
        played_one(d, bind, v[0]);
    }
    let c = Cmd::PushConstants { layout: layout_spec(p), op: i as usize };
    played_one(d, seen, c);
    played_one(d, seen.push(c), Cmd::Draw);
    assert(op_cmds(op, i, bound) =~= seen.push(c).push(Cmd::Draw));
    let e = played(d, op_cmds(op, i, bound));
    assert(e.drawn.drop_last() =~= d.drawn);
    assert(e.views =~= d.views);
}

proof fn all_ops(d: Device, ops: Seq<RenderOp>, n: nat)
    requires
        d.views.len() == 0,
        d.constants is None,
        d.pass is Some,
        n <= ops.len(),
    ensures
        ({
            let e = played(d, ops_cmds(ops, n));
            &&& e == (Device { pipe: e.pipe, drawn: e.drawn, ..d })
            &&& n > 0 ==> e.pipe == Some(ops[n - 1].pipe_spec())
            &&& e.drawn.len() == d.drawn.len() + n
            &&& e.drawn.take(d.drawn.len() as int) == d.drawn
            &&& all_carried_out(e.drawn, d.drawn.len(), d.pass->0, ops.take(n as int))
        }),
    decreases n,
{
    if n == 0 {
        assert(d.drawn.take(d.drawn.len() as int) =~= d.drawn);
    } else {
        let m = (n - 1) as nat;
        all_ops(d, ops, m);
        let mid = played(d, ops_cmds(ops, m));
        let bound = bound_before(ops, n - 1);
        one_op(mid, ops[n - 1], n - 1, bound);
        played_on(d, ops_cmds(ops, m), op_cmds(ops[n - 1], n - 1, bound));
        let e = played(d, ops_cmds(ops, n));
        assert(e.drawn.take(d.drawn.len() as int) =~= mid.drawn.take(d.drawn.len() as int)) by {
            assert forall|i: int| 0 <= i < d.drawn.len() implies e.drawn[i] == mid.drawn[i] by {
                assert(e.drawn.drop_last()[i] == mid.drawn[i]);
            }
        }
        assert forall|k: int| 0 <= k < n implies carries_out(
            #[trigger] e.drawn[d.drawn.len() + k],
            d.pass->0,
            ops.take(n as int)[k],
            k,
        ) by {
            if k < m {
                assert(e.drawn[d.drawn.len() + k] == e.drawn.drop_last()[d.drawn.len() + k]);
                assert(carries_out(mid.drawn[d.drawn.len() + k], d.pass->0, ops.take(m as int)[k], k));
            } else {
                assert(e.drawn.last() == e.drawn[d.drawn.len() + k]);
            }
        }
    }
}

/// One pass of its own between its barriers.
proof fn whole_pass(d: Device, acquire: Barrier, release: Barrier, p: Pass, ops: Seq<RenderOp>)
    requires
        d.views.len() == 0,
        d.constants is None,
    ensures
        ({
            let e = played(d, pass_cmds(acquire, release, p.view, p.width, p.height, p.clear, ops));
            &&& e == (Device { pass: None, pipe: e.pipe, drawn: e.drawn, passes: d.passes.push((p, d.drawn.len())), ..d })
            &&& e.drawn.len() == d.drawn.len() + ops.len()
            &&& e.drawn.take(d.drawn.len() as int) == d.drawn
            &&& all_carried_out(e.drawn, d.drawn.len(), p, ops)
        }),
{
    let none = Seq::<Cmd>::empty();
    let a = Cmd::Barrier(acquire);
    let b = Cmd::BeginPass { view: p.view, width: p.width, height: p.height, clear: p.clear };
    let head = none.push(a).push(b);
    played_one(d, none, a);
    played_one(d, none.push(a), b);
    let body = ops_cmds(ops, ops.len());
    let begun = played(d, head);
    all_ops(begun, ops, ops.len());
    assert(ops.take(ops.len() as int) =~= ops);
    played_on(d, head, body);
    let mid = head + body;
    played_one(d, mid, Cmd::EndPass);
    played_one(d, mid.push(Cmd::EndPass), Cmd::Barrier(release));
    assert(pass_cmds(acquire, release, p.view, p.width, p.height, p.clear, ops) =~= mid.push(Cmd::EndPass).push(
        Cmd::Barrier(release),
    ));
}

proof fn only_copies(d: Device, us: Seq<PreUpload>, n: nat)
    requires
        n <= us.len(),
    ensures
        ({
            let e = played(d, copy_cmds(us).take(n as int));
            &&& e == (Device { copied: e.copied, ..d })
            &&& e.copied == d.copied + Seq::new(n, |i: int| copied_of(us[i], d.passes.len()))
        }),
    decreases n,
{
    let s = copy_cmds(us).take(n as int);
    if n > 0 {
        only_copies(d, us, (n - 1) as nat);
        assert(s.drop_last() =~= copy_cmds(us).take(n - 1));
        assert(s.last() == copy_in(us[n - 1]));
        assert(played(d, s).copied =~= d.copied + Seq::new(n, |i: int| copied_of(us[i], d.passes.len())));
    } else {
        assert(d.copied + Seq::new(0, |i: int| copied_of(us[i], d.passes.len())) =~= d.copied);
    }
}

proof fn barriers_draw_nothing(d: Device, cmds: Seq<Cmd>)
    requires
        forall|i: int| 0 <= i < cmds.len() ==> #[trigger] cmds[i] is Barrier,
    ensures
        played(d, cmds) == d,
    decreases cmds.len(),
{
    if cmds.len() > 0 {
        assert(cmds[cmds.len() - 1] is Barrier);
        assert forall|i: int| 0 <= i < cmds.drop_last().len() implies #[trigger] cmds.drop_last()[i] is Barrier by {
            assert(cmds[i] is Barrier);
        }
        barriers_draw_nothing(d, cmds.drop_last());
    }
}

/// The copy that an upload asks for.
pub open spec fn copied_of(u: PreUpload, passes: nat) -> Copied {
    Copied {
        buffer: u.buffer,
        offset: u.offset,
        row_texels: u.row_texels,
        image: u.image,
        width: u.width,
        height: u.height,
        passes,
    }
}

proof fn all_uploads(d: Device, us: Seq<PreUpload>)
    ensures
        ({
            let e = played(d, upload_cmds(us));
            &&& e == (Device { copied: e.copied, ..d })
            &&& e.copied == d.copied + Seq::new(us.len(), |i: int| copied_of(us[i], d.passes.len()))
        }),
{
    barriers_draw_nothing(d, dst_cmds(us));
    only_copies(d, us, us.len());
    assert(copy_cmds(us).take(us.len() as int) =~= copy_cmds(us));
    let e = played(d, copy_cmds(us));
    barriers_draw_nothing(e, sample_cmds(us));
    played_on(d, dst_cmds(us), copy_cmds(us));
    played_on(d, dst_cmds(us) + copy_cmds(us), sample_cmds(us));
}

/// How many operations the first `n` passes have.
pub open spec fn ops_before(ps: Seq<PrePass>, n: nat) -> nat
    decreases n,
{
    if n == 0 || n > ps.len() { 0 } else { ops_before(ps, (n - 1) as nat) + ps[n - 1].ops@.len() }
}

pub open spec fn pass_of(p: PrePass) -> Pass {
    Pass { view: p.view, width: p.width, height: p.height, clear: p.clear }
}

proof fn all_passes(d: Device, ps: Seq<PrePass>, n: nat)
    requires
        d.views.len() == 0,
        d.constants is None,
        d.pass is None,
        n <= ps.len(),
    ensures
        ({
            let e = played(d, passes_cmds(ps, n));
            &&& e == (Device { pipe: e.pipe, drawn: e.drawn, passes: e.passes, ..d })
            &&& e.drawn.len() == d.drawn.len() + ops_before(ps, n)
            &&& e.drawn.take(d.drawn.len() as int) == d.drawn
            &&& e.passes == d.passes + Seq::new(n, |i: int| (pass_of(ps[i]), d.drawn.len() + ops_before(ps, i as nat)))
            &&& forall|j: int|
                0 <= j < n ==> all_carried_out(
                    e.drawn,
                    d.drawn.len() + ops_before(ps, j as nat),
                    pass_of(#[trigger] ps[j]),
                    ps[j].ops@,
                )
        }),
    decreases n,
{
    if n == 0 {
        assert(d.drawn.take(d.drawn.len() as int) =~= d.drawn);
        assert(d.passes + Seq::new(0, |i: int| (pass_of(ps[i]), d.drawn.len() + ops_before(ps, i as nat))) =~= d.passes);
    } else {
        let m = (n - 1) as nat;
        all_passes(d, ps, m);
        let mid = played(d, passes_cmds(ps, m));
        let p = ps[n - 1];
        whole_pass(mid, pre_acquire(p), pre_release(p), pass_of(p), p.ops@);
        played_on(d, passes_cmds(ps, m), one_pass(p));
        let e = played(d, passes_cmds(ps, n));
        assert(e.drawn.take(d.drawn.len() as int) =~= d.drawn) by {
            assert forall|i: int| 0 <= i < d.drawn.len() implies e.drawn[i] == d.drawn[i] by {
                assert(e.drawn.take(mid.drawn.len() as int)[i] == mid.drawn[i]);
                assert(mid.drawn.take(d.drawn.len() as int)[i] == d.drawn[i]);
            }
        }
        assert(e.passes =~= d.passes + Seq::new(
            n,
            |i: int| (pass_of(ps[i]), d.drawn.len() + ops_before(ps, i as nat)),
        ));
        assert forall|j: int| 0 <= j < n implies all_carried_out(
            e.drawn,
            d.drawn.len() + ops_before(ps, j as nat),
            pass_of(#[trigger] ps[j]),
            ps[j].ops@,
        ) by {
            if j < m {
                let at = d.drawn.len() + ops_before(ps, j as nat);
                assert(all_carried_out(mid.drawn, at, pass_of(ps[j]), ps[j].ops@));
                assert forall|k: int| 0 <= k < ps[j].ops@.len() implies carries_out(
                    #[trigger] e.drawn[at + k],
                    pass_of(ps[j]),
                    ps[j].ops@[k],
                    k,
                ) by {
                    assert(carries_out(mid.drawn[at + k], pass_of(ps[j]), ps[j].ops@[k], k));
                    assert(e.drawn.take(mid.drawn.len() as int)[at + k] == mid.drawn[at + k]);
                }
            }
        }
    }
}

proof fn before_the_target(us: Seq<PreUpload>, ps: Seq<PrePass>)
    ensures
        ({
            let e = played(idle(), pre_cmds(us, ps));
            &&& e == (Device { pipe: e.pipe, drawn: e.drawn, passes: e.passes, copied: e.copied, ..idle() })
            &&& e.copied == Seq::new(us.len(), |i: int| copied_of(us[i], 0))
            &&& e.drawn.len() == ops_before(ps, ps.len())
            &&& e.passes == Seq::new(ps.len(), |i: int| (pass_of(ps[i]), ops_before(ps, i as nat)))
            &&& forall|j: int|
                0 <= j < ps.len() ==> all_carried_out(
                    e.drawn,
                    ops_before(ps, j as nat),
                    pass_of(#[trigger] ps[j]),
                    ps[j].ops@,
                )
        }),
{
    let d = idle();
    all_uploads(d, us);
    let up = played(d, upload_cmds(us));
    assert(up.copied =~= Seq::new(us.len(), |i: int| copied_of(us[i], 0)));
    all_passes(up, ps, ps.len());
    played_on(d, upload_cmds(us), passes_cmds(ps, ps.len()));
    let e = played(d, pre_cmds(us, ps));
    assert(e.passes =~= Seq::new(ps.len(), |i: int| (pass_of(ps[i]), ops_before(ps, i as nat))));
}

/// A frame comes out as asked: first every upload is copied whole into its image, then the
/// offscreen passes run in list order, then the target's. Each operation is drawn exactly
/// once, in its own pass, in order, by the shader of its kind, over its own textures and
/// constants; nothing else is drawn, copied or read.
pub proof fn frames_come_out_as_asked(us: Seq<PreUpload>, ps: Seq<PrePass>, t: FrameTarget, clear: bool, ops: Seq<RenderOp>)
    ensures
        ({
            let e = played(idle(), frame_cmds(us, ps, t, clear, ops));
            let last = Pass { view: t.view, width: t.width, height: t.height, clear };
            &&& e.pass is None
            &&& e.read.len() == 0
            &&& e.copied == Seq::new(us.len(), |i: int| copied_of(us[i], 0))
            &&& e.passes == Seq::new(ps.len(), |i: int| (pass_of(ps[i]), ops_before(ps, i as nat))).push(
                (last, ops_before(ps, ps.len())),
            )
            &&& e.drawn.len() == ops_before(ps, ps.len()) + ops.len()
            &&& forall|j: int|
                0 <= j < ps.len() ==> all_carried_out(
                    e.drawn,
                    ops_before(ps, j as nat),
                    pass_of(#[trigger] ps[j]),
                    ps[j].ops@,
                )
            &&& all_carried_out(e.drawn, ops_before(ps, ps.len()), last, ops)
        }),
{
    before_the_target(us, ps);
    let pre = played(idle(), pre_cmds(us, ps));
    let acquire = target_acquire(t, ImageLayout::ColorAttachment, Stage::ColorOutput, Access::ColorReadWrite);
    let release = target_release(t, ImageLayout::ColorAttachment, Stage::ColorOutput, Access::ColorReadWrite);
    let last = Pass { view: t.view, width: t.width, height: t.height, clear };
    whole_pass(pre, acquire, release, last, ops);
    let tail = pass_cmds(acquire, release, t.view, t.width, t.height, clear, ops);
    played_on(idle(), pre_cmds(us, ps), tail);
    let e = played(idle(), frame_cmds(us, ps, t, clear, ops));
    earlier_draws_stay(pre, e, ps);
}

proof fn earlier_draws_stay(pre: Device, e: Device, ps: Seq<PrePass>)
    requires
        pre.drawn.len() <= e.drawn.len(),
        e.drawn.take(pre.drawn.len() as int) == pre.drawn,
        forall|j: int|
            0 <= j < ps.len() ==> all_carried_out(
                pre.drawn,
                ops_before(ps, j as nat),
                pass_of(#[trigger] ps[j]),
                ps[j].ops@,
            ),
    ensures
        forall|j: int|
            0 <= j < ps.len() ==> all_carried_out(
                e.drawn,
                ops_before(ps, j as nat),
                pass_of(#[trigger] ps[j]),
                ps[j].ops@,
            ),
{
    assert forall|j: int| 0 <= j < ps.len() implies all_carried_out(
        e.drawn,
        ops_before(ps, j as nat),
        pass_of(#[trigger] ps[j]),
        ps[j].ops@,
    ) by {
        let at = ops_before(ps, j as nat);
        assert(all_carried_out(pre.drawn, at, pass_of(ps[j]), ps[j].ops@));
        assert forall|k: int| 0 <= k < ps[j].ops@.len() implies carries_out(
            #[trigger] e.drawn[at + k],
            pass_of(ps[j]),
            ps[j].ops@[k],
            k,
        ) by {
            assert(carries_out(pre.drawn[at + k], pass_of(ps[j]), ps[j].ops@[k], k));
            assert(e.drawn.take(pre.drawn.len() as int)[at + k] == pre.drawn[at + k]);
        }
    }
}

/// A capture draws what a frame of the same operations draws, always on a cleared image,
/// and then reads that image back, once and whole.
pub proof fn captures_draw_what_frames_draw(
    us: Seq<PreUpload>,
    ps: Seq<PrePass>,
    image: u64,
    view: u64,
    width: u32,
    height: u32,
    ops: Seq<RenderOp>,
)
    ensures
        ({
            let e = played(idle(), read_frame_cmds(us, ps, image, view, width, height, ops));
            let last = Pass { view, width, height, clear: true };
            &&& e.pass is None
            &&& e.copied == Seq::new(us.len(), |i: int| copied_of(us[i], 0))
            &&& e.passes == Seq::new(ps.len(), |i: int| (pass_of(ps[i]), ops_before(ps, i as nat))).push(
                (last, ops_before(ps, ps.len())),
            )
            &&& e.drawn.len() == ops_before(ps, ps.len()) + ops.len()
            &&& forall|j: int|
                0 <= j < ps.len() ==> all_carried_out(
                    e.drawn,
                    ops_before(ps, j as nat),
                    pass_of(#[trigger] ps[j]),
                    ps[j].ops@,
                )
            &&& all_carried_out(e.drawn, ops_before(ps, ps.len()), last, ops)
            &&& e.read == seq![(image, width, height, e.drawn.len())]
        }),
{
    before_the_target(us, ps);
    let pre = played(idle(), pre_cmds(us, ps));
    let last = Pass { view, width, height, clear: true };
    whole_pass(pre, capture_acquire(image), capture_release(image), last, ops);
    let tail = pass_cmds(capture_acquire(image), capture_release(image), view, width, height, true, ops);
    played_on(idle(), pre_cmds(us, ps), tail);
    let all = pre_cmds(us, ps) + tail;
    let out = Cmd::CopyOut { image, width, height };
    played_one(idle(), all, out);
    assert(read_frame_cmds(us, ps, image, view, width, height, ops) =~= all.push(out));
    let e = played(idle(), read_frame_cmds(us, ps, image, view, width, height, ops));
    earlier_draws_stay(pre, e, ps);
    assert(e.read =~= seq![(image, width, height, e.drawn.len())]);
}

/// What a barrier lets begin, and what it waits for, fit the layouts it moves between: a
/// write into an image, or a read of it, never overlaps the opposite.
pub open spec fn orders(b: Barrier) -> bool {
    &&& match b.to {
        ImageLayout::ShaderRead => b.dst is Fragment && b.dst_access is SampledRead,
        ImageLayout::TransferDst => b.dst is Transfer && b.dst_access is TransferWrite,
        ImageLayout::TransferSrc => b.dst is Transfer && b.dst_access is TransferRead,
        ImageLayout::ColorAttachment => b.dst is ColorOutput && b.dst_access is ColorReadWrite,
        ImageLayout::General => b.handover is Release,
        ImageLayout::Undefined => false,
    }
    &&& match b.from {
        ImageLayout::ShaderRead => b.src is Fragment,
        ImageLayout::TransferDst => b.src is Transfer && b.src_access is TransferWrite,
        ImageLayout::ColorAttachment => b.src is ColorOutput && (b.src_access is ColorWrite || b.src_access is ColorReadWrite),
        ImageLayout::TransferSrc => b.src is Transfer && b.src_access is TransferRead,
        ImageLayout::General => b.handover is Acquire,
        ImageLayout::Undefined => true,
    }
}

pub open spec fn all_order(cmds: Seq<Cmd>) -> bool {
    forall|i: int| 0 <= i < cmds.len() ==> (#[trigger] cmds[i] matches Cmd::Barrier(b) ==> orders(b))
}

proof fn order_of_both(a: Seq<Cmd>, b: Seq<Cmd>)
    requires
        all_order(a),
        all_order(b),
    ensures
        all_order(a + b),
{
    assert forall|i: int| 0 <= i < (a + b).len() implies (#[trigger] (a + b)[i] matches Cmd::Barrier(x) ==> orders(x)) by {
        if i < a.len() {
            assert((a + b)[i] == a[i]);
        } else {
            assert((a + b)[i] == b[i - a.len()]);
        }
    }
}

proof fn order_of_ops(ops: Seq<RenderOp>, n: nat)
    requires
        n <= ops.len(),
    ensures
        all_order(ops_cmds(ops, n)),
    decreases n,
{
    if n > 0 {
        order_of_ops(ops, (n - 1) as nat);
        let b = op_cmds(ops[n - 1], n - 1, bound_before(ops, n - 1));
        assert(all_order(b));
        order_of_both(ops_cmds(ops, (n - 1) as nat), b);
    }
}

proof fn order_of_pass(acquire: Barrier, release: Barrier, p: Pass, ops: Seq<RenderOp>)
    requires
        orders(acquire),
        orders(release),
    ensures
        all_order(pass_cmds(acquire, release, p.view, p.width, p.height, p.clear, ops)),
{
    let head = seq![
        Cmd::Barrier(acquire),
        Cmd::BeginPass { view: p.view, width: p.width, height: p.height, clear: p.clear },
    ];
    let tail = seq![Cmd::EndPass, Cmd::Barrier(release)];
    order_of_ops(ops, ops.len());
    order_of_both(head, ops_cmds(ops, ops.len()));
    order_of_both(head + ops_cmds(ops, ops.len()), tail);
}

proof fn order_of_passes(ps: Seq<PrePass>, n: nat)
    requires
        n <= ps.len(),
    ensures
        all_order(passes_cmds(ps, n)),
    decreases n,
{
    if n > 0 {
        order_of_passes(ps, (n - 1) as nat);
        let p = ps[n - 1];
        order_of_pass(pre_acquire(p), pre_release(p), pass_of(p), p.ops@);
        order_of_both(passes_cmds(ps, (n - 1) as nat), one_pass(p));
    }
}

/// No barrier of a frame lets an access begin that its layout does not allow, or waits for
/// less than the access before it; and the target alone changes hands, from the display
/// side and back.
pub proof fn frames_order_their_accesses(us: Seq<PreUpload>, ps: Seq<PrePass>, t: FrameTarget, clear: bool, ops: Seq<RenderOp>)
    ensures
        all_order(frame_cmds(us, ps, t, clear, ops)),
        frame_cmds(us, ps, t, clear, ops).last() matches Cmd::Barrier(b) && b.image == t.image && b.handover is Release
            && b.to is General,
        frame_cmds(us, ps, t, clear, ops)[pre_cmds(us, ps).len() as int] matches Cmd::Barrier(b) && b.image == t.image
            && b.handover is Acquire && b.to is ColorAttachment && (t.undefined ==> b.from is Undefined) && (!t.undefined
            ==> b.from is General),
{
    assert(all_order(dst_cmds(us)));
    assert(all_order(copy_cmds(us)));
    assert(all_order(sample_cmds(us)));
    order_of_both(dst_cmds(us), copy_cmds(us));
    order_of_both(dst_cmds(us) + copy_cmds(us), sample_cmds(us));
    order_of_passes(ps, ps.len());
    order_of_both(upload_cmds(us), passes_cmds(ps, ps.len()));
    let acquire = target_acquire(t, ImageLayout::ColorAttachment, Stage::ColorOutput, Access::ColorReadWrite);
    let release = target_release(t, ImageLayout::ColorAttachment, Stage::ColorOutput, Access::ColorReadWrite);
    let last = Pass { view: t.view, width: t.width, height: t.height, clear };
    order_of_pass(acquire, release, last, ops);
    order_of_both(
        pre_cmds(us, ps),
        pass_cmds(acquire, release, t.view, t.width, t.height, clear, ops),
    );
}

/// A fullscreen buffer that becomes the whole frame is copied over the whole target, once,
/// and nothing is drawn; the target is taken from the display side and handed back to it.
pub proof fn copied_frames_are_whole(src: u64, offset: u64, row_texels: u32, t: FrameTarget, start: ImageLayout)
    requires
        t.undefined || start is General,
    ensures
        ({
            let cmds = copy_frame_cmds(src, offset, row_texels, t);
            let e = played(idle(), cmds);
            &&& e.copied == seq![
                Copied { buffer: src, offset, row_texels, image: t.image, width: t.width, height: t.height, passes: 0 },
            ]
            &&& e.drawn.len() == 0 && e.passes.len() == 0 && e.read.len() == 0
            &&& all_order(cmds)
            &&& sound(cmds, t.image, start)
            &&& layout_after(cmds.take(1), t.image, start) is TransferDst
            &&& layout_after(cmds, t.image, start) is General
            &&& cmds.first() matches Cmd::Barrier(b) && b.image == t.image && b.handover is Acquire
            &&& cmds.last() matches Cmd::Barrier(b) && b.image == t.image && b.handover is Release
        }),
{
    let cmds = copy_frame_cmds(src, offset, row_texels, t);
    three_commands(idle(), cmds, t.image, start);
    let e = played(idle(), cmds);
    assert(e.copied =~= seq![
        Copied { buffer: src, offset, row_texels, image: t.image, width: t.width, height: t.height, passes: 0 },
    ]);
}

proof fn three_commands(d: Device, cmds: Seq<Cmd>, image: u64, start: ImageLayout)
    requires
        cmds.len() == 3,
        cmds[0] matches Cmd::Barrier(b) && b.image == image && (b.from is Undefined || b.from == start),
        !(cmds[1] is Barrier),
        cmds[2] matches Cmd::Barrier(b) && b.image == image && b.from == (cmds[0]->Barrier_0).to,
    ensures
        played(d, cmds) == stepped(d, cmds[1]),
        sound(cmds, image, start),
        layout_after(cmds.take(1), image, start) == (cmds[0]->Barrier_0).to,
        layout_after(cmds, image, start) == (cmds[2]->Barrier_0).to,
{
    reveal_with_fuel(played, 4);
    reveal_with_fuel(sound, 4);
    reveal_with_fuel(layout_after, 4);
    let two = cmds.drop_last();
    let one = two.drop_last();
    assert(one =~= cmds.take(1));
    assert(one.drop_last() =~= Seq::<Cmd>::empty());
}

/// Pulling pixels back reads the whole target, once, and leaves it as the display had it.
pub proof fn readbacks_leave_the_target_alone(t: FrameTarget)
    ensures
        ({
            let cmds = readback_cmds(t);
            let e = played(idle(), cmds);
            &&& e.read == seq![(t.image, t.width, t.height, 0nat)]
            &&& e.drawn.len() == 0 && e.passes.len() == 0 && e.copied.len() == 0
            &&& sound(cmds, t.image, ImageLayout::General)
            &&& layout_after(cmds.take(1), t.image, ImageLayout::General) is TransferSrc
            &&& layout_after(cmds, t.image, ImageLayout::General) is General
        }),
{
    three_commands(idle(), readback_cmds(t), t.image, ImageLayout::General);
    assert(played(idle(), readback_cmds(t)).read =~= seq![(t.image, t.width, t.height, 0nat)]);
}

} // verus!
