//! The frame loop of one head: wait for damage or a completed flip, render into the
//! buffer that is not on glass, flip to it, and clean up once the gpu is done. The
//! caller carries out each act and reports what came of it.
use crate::output::bringup::{dpms_head, event_head, DeviceEvent};
use crate::output::compose::{claims_of, samples_animation, tally, Tally};
use crate::output::present::{
    flipped_head, frame_done, FlipDone, FlipMode, FlipReply, ModeTiming, Presented, Presenter, Wake,
};
use crate::output::scene::Item;
use crate::output::topology::head_set;
use crate::output::Output;
use vstd::prelude::*;

verus! {

/// Where in a frame the loop is.
#[derive(Clone, Copy, Debug, PartialEq, Eq, Structural)]
pub enum Beat {
    /// for damage or a completed flip
    Waiting,
    Rendering { back: usize },
    /// the render has to be finished before a tearing flip
    Settling { back: usize },
    /// a tearing flip is on its way
    Tearing { back: usize },
    Flipping { back: usize },
    /// the gpu still works on the frame
    Finishing,
}

/// What came of the last act.
pub enum News {
    /// damage since the last wake, whether the queued flip completed, and the last flip's
    /// timestamp
    Woke { damage: bool, completed: bool, done: FlipDone },
    /// the frame is submitted: the feedbacks it claimed, whether it sampled a live
    /// animation, whether it has a fence, and the policies as they stand now
    Rendered { claimed: Vec<u64>, animating: bool, fence: bool, vrr_wanted: bool, tearing: bool, vrr_dirty: bool },
    RenderFailed { claimed: Vec<u64>, animating: bool },
    FenceSignalled,
    /// the kernel refused to tear
    AsyncRefused,
    Flip(FlipReply),
}

/// News, as a contract speaks of it.
pub ghost enum NewsV {
    Woke(bool, bool, FlipDone),
    Rendered(Seq<u64>, bool, bool, bool, bool, bool),
    RenderFailed(Seq<u64>, bool),
    FenceSignalled,
    AsyncRefused,
    Flip(FlipReply),
}

impl View for News {
    type V = NewsV;

    open spec fn view(&self) -> NewsV {
        match self {
            News::Woke { damage, completed, done } => NewsV::Woke(*damage, *completed, *done),
            News::Rendered { claimed, animating, fence, vrr_wanted, tearing, vrr_dirty } => NewsV::Rendered(
                claimed@,
                *animating,
                *fence,
                *vrr_wanted,
                *tearing,
                *vrr_dirty,
            ),
            News::RenderFailed { claimed, animating } => NewsV::RenderFailed(claimed@, *animating),
            News::FenceSignalled => NewsV::FenceSignalled,
            News::AsyncRefused => NewsV::AsyncRefused,
            News::Flip(r) => NewsV::Flip(*r),
        }
    }
}

impl News {
    /// A frame of these items is submitted.
    pub fn rendered(items: &Vec<Item>, fence: bool, vrr_wanted: bool, tearing: bool, vrr_dirty: bool) -> (r: News)
        ensures
            r@ == rendered_news(items@, fence, vrr_wanted, tearing, vrr_dirty),
    {
        let t: Tally = tally(items);
        News::Rendered { claimed: t.claimed, animating: t.animating, fence, vrr_wanted, tearing, vrr_dirty }
    }

    /// A frame of these items could not be submitted.
    pub fn render_failed(items: &Vec<Item>) -> (r: News)
        ensures
            r@ == NewsV::RenderFailed(claims_of(items@), samples_animation(items@)),
    {
        let t: Tally = tally(items);
        News::RenderFailed { claimed: t.claimed, animating: t.animating }
    }
}

/// The news of a submitted frame.
pub open spec fn rendered_news(items: Seq<Item>, fence: bool, vrr: bool, tearing: bool, vrr_dirty: bool) -> NewsV {
    NewsV::Rendered(claims_of(items), samples_animation(items), fence, vrr, tearing, vrr_dirty)
}

/// What to do next.
#[derive(Clone, Copy, Debug, PartialEq, Eq, Structural)]
pub enum Act {
    Sleep,
    /// compose into this buffer; its old contents may be undefined
    Render { back: usize, undefined: bool },
    /// wait for the frame's fence
    Await,
    /// flip to this buffer at once
    FlipAsync { back: usize },
    /// flip to this buffer, with the frame's fence if it has one
    Flip { back: usize, fenced: bool },
    /// the frame is over: textures that nothing shows any more go, and so do parked
    /// buffers; frame callbacks fire, and then the frame's tail runs. `shown` when the
    /// kernel took the frame: else it never reaches glass
    Finish { textures: bool, parked: bool, shown: bool },
}

/// The loop of one head.
pub struct FrameLoop {
    /// identity of the head
    pub head: u64,
    pub p: Presenter,
    pub beat: Beat,
    /// the frame in the making has a fence
    pub fence: bool,
    /// the kernel took the frame
    pub shown: bool,
}

/// A presenter, as a contract speaks of it.
#[verifier::ext_equal]
pub ghost struct PresenterV {
    pub dirty: bool,
    pub undefined: (bool, bool),
    pub vrr: bool,
    pub mode: Option<ModeTiming>,
    pub latched: Seq<u64>,
    pub inflight: Seq<u64>,
    pub inflight_vsync: bool,
}

pub open spec fn presenter_view(p: Presenter) -> PresenterV {
    PresenterV {
        dirty: p.dirty,
        undefined: p.undefined,
        vrr: p.vrr,
        mode: p.mode,
        latched: p.latched@,
        inflight: p.inflight@,
        inflight_vsync: p.inflight_vsync,
    }
}

/// The loop, as a contract speaks of it.
#[verifier::ext_equal]
pub ghost struct LoopV {
    pub head: u64,
    pub p: PresenterV,
    pub beat: Beat,
    pub fence: bool,
    pub shown: bool,
}

impl View for FrameLoop {
    type V = LoopV;

    open spec fn view(&self) -> LoopV {
        LoopV { head: self.head, p: presenter_view(self.p), beat: self.beat, fence: self.fence, shown: self.shown }
    }
}

/// The loop and its head after some news, with how many frames of all heads the gpu
/// works on.
#[verifier::ext_equal]
pub ghost struct Stepped {
    pub l: LoopV,
    pub head: Output,
    pub in_flight: int,
    pub act: Act,
    /// feedbacks whose frames never present
    pub discarded: Seq<u64>,
}

/// The buffer a beat is about.
pub open spec fn back_of(b: Beat) -> int {
    match b {
        Beat::Rendering { back } => back as int,
        Beat::Settling { back } => back as int,
        Beat::Tearing { back } => back as int,
        Beat::Flipping { back } => back as int,
        _ => 0,
    }
}

/// Something new to show.
pub open spec fn due(p: PresenterV, head: Output, damage: bool) -> bool {
    p.dirty || damage || head.anim_pending
}

/// A completed flip is no longer waited for.
pub open spec fn woken_head(head: Output, completed: bool) -> Output {
    Output { flip_pending: head.flip_pending && !completed, ..head }
}

/// The head may be flipped: it is not paused, and no flip is on its way.
pub open spec fn is_free(head: Output) -> bool {
    !head.flip_pending && !head.paused
}

/// Feedbacks that waited for a completed flip are told and gone.
pub open spec fn after_wake(p: PresenterV, head: Output, damage: bool) -> PresenterV {
    PresenterV {
        dirty: due(p, head, damage) && !is_free(head),
        inflight: if !head.flip_pending { Seq::empty() } else { p.inflight },
        ..p
    }
}

pub open spec fn after_render(p: PresenterV, back: int, claimed: Seq<u64>, vrr: bool) -> PresenterV {
    PresenterV {
        undefined: if back == 0 { (false, p.undefined.1) } else { (p.undefined.0, false) },
        vrr,
        latched: p.latched + claimed,
        inflight_vsync: true,
        ..p
    }
}

/// A queued flip takes the claimed feedbacks along; losing the card drops them, and unless
/// the flip was queued the frame is drawn again.
pub open spec fn after_flip(p: PresenterV, reply: FlipReply) -> PresenterV {
    match reply {
        FlipReply::Queued => PresenterV { inflight: p.inflight + p.latched, latched: Seq::empty(), ..p },
        FlipReply::LostMaster => PresenterV { dirty: true, latched: Seq::empty(), inflight: Seq::empty(), ..p },
        _ => PresenterV { dirty: true, ..p },
    }
}

pub open spec fn dropped(p: PresenterV, reply: FlipReply) -> Seq<u64> {
    if reply is LostMaster { p.latched + p.inflight } else { Seq::empty() }
}

pub open spec fn one_fewer(n: int) -> int {
    if n == 0 { 0 } else { n - 1 }
}

/// The frame is over. Textures only go when the fence told that the gpu is done.
pub open spec fn finished(l: LoopV, head: Output, in_flight: int) -> Stepped {
    Stepped {
        l: LoopV { beat: Beat::Waiting, fence: false, shown: false, ..l },
        head,
        in_flight: one_fewer(in_flight),
        act: Act::Finish { textures: l.fence, parked: in_flight <= 1, shown: l.shown },
        discarded: Seq::empty(),
    }
}

/// The kernel answered a flip: wait for the gpu, or finish at once without a fence.
pub open spec fn answered(l: LoopV, head: Output, reply: FlipReply, in_flight: int) -> Stepped {
    let done = LoopV { p: after_flip(l.p, reply), shown: reply is Queued, ..l };
    let shown = flipped_head(head, back_of(l.beat) as usize, reply);
    if l.fence {
        Stepped {
            l: LoopV { beat: Beat::Finishing, ..done },
            head: shown,
            in_flight,
            act: Act::Await,
            discarded: dropped(l.p, reply),
        }
    } else {
        Stepped { discarded: dropped(l.p, reply), ..finished(done, shown, in_flight) }
    }
}

pub open spec fn only(l: LoopV, head: Output, in_flight: int, act: Act) -> Stepped {
    Stepped { l, head, in_flight, act, discarded: Seq::empty() }
}

/// What a rendered frame does: tear, once the render is finished, or flip.
pub open spec fn submitted(l: LoopV, head: Output, tear: bool, in_flight: int) -> Stepped {
    let back = back_of(l.beat) as usize;
    if tear && l.fence {
        only(LoopV { beat: Beat::Settling { back }, ..l }, head, in_flight, Act::Await)
    } else if tear {
        only(LoopV { beat: Beat::Tearing { back }, ..l }, head, in_flight, Act::FlipAsync { back })
    } else {
        only(LoopV { beat: Beat::Flipping { back }, ..l }, head, in_flight, Act::Flip { back, fenced: l.fence })
    }
}

/// One round of the loop on its head.
pub open spec fn loop_step(l: LoopV, head: Output, news: NewsV, in_flight: int) -> Stepped {
    let back = back_of(l.beat) as usize;
    match news {
        NewsV::Woke(damage, completed, done) => {
            let h = woken_head(head, completed);
            let woken = LoopV { p: after_wake(l.p, h, damage), ..l };
            if due(l.p, h, damage) && is_free(h) {
                let next = (1 - h.front) as usize;
                only(
                    LoopV { beat: Beat::Rendering { back: next }, ..woken },
                    h,
                    in_flight,
                    Act::Render { back: next, undefined: if next == 0 { l.p.undefined.0 } else { l.p.undefined.1 } },
                )
            } else {
                only(woken, h, in_flight, Act::Sleep)
            }
        },
        NewsV::Rendered(claimed, animating, fence, vrr, tearing, vrr_dirty) => submitted(
            LoopV { p: after_render(l.p, back as int, claimed, vrr), fence, ..l },
            Output { anim_pending: animating, ..head },
            tearing && !vrr_dirty,
            in_flight + 1,
        ),
        NewsV::RenderFailed(claimed, animating) => only(
            LoopV { p: PresenterV { latched: l.p.latched + claimed, ..l.p }, beat: Beat::Waiting, ..l },
            Output { anim_pending: animating, ..head },
            in_flight,
            Act::Sleep,
        ),
        NewsV::FenceSignalled => if l.beat is Settling {
            only(LoopV { beat: Beat::Tearing { back }, ..l }, head, in_flight, Act::FlipAsync { back })
        } else {
            finished(l, head, in_flight)
        },
        NewsV::AsyncRefused => only(
            LoopV { beat: Beat::Flipping { back }, ..l },
            head,
            in_flight,
            Act::Flip { back, fenced: l.fence },
        ),
        NewsV::Flip(reply) => if l.beat is Tearing {
            answered(LoopV { p: PresenterV { inflight_vsync: false, ..l.p }, ..l }, head, reply, in_flight)
        } else {
            answered(l, head, reply, in_flight)
        },
    }
}

/// The news a beat waits for. A refused tearing flip is no answer to it.
pub open spec fn expected(b: Beat, news: NewsV) -> bool {
    match b {
        Beat::Waiting => news matches NewsV::Woke(_, _, done) && done.usec * 1000 <= u32::MAX,
        Beat::Rendering { .. } => news is Rendered || news is RenderFailed,
        Beat::Settling { .. } | Beat::Finishing => news is FenceSignalled,
        Beat::Tearing { .. } => news is AsyncRefused || (news matches NewsV::Flip(r) && (r is Queued || r is NotPresented)),
        Beat::Flipping { .. } => news is Flip,
    }
}

impl FrameLoop {
    /// The loop runs on its own head, and the buffer that is drawn is not the one on glass.
    pub open spec fn wf(self, head: Output) -> bool {
        &&& self.head == head.uid
        &&& head.front <= 1
        &&& back_of(self.beat) <= 1
        &&& self.beat is Settling || self.beat is Finishing ==> self.fence
        &&& self.shown ==> self.beat is Finishing
        &&& match self.beat {
            Beat::Waiting | Beat::Finishing => true,
            _ => back_of(self.beat) != head.front,
        }
    }

    pub fn new(head: &Output, p: Presenter) -> (l: FrameLoop)
        ensures
            head.front <= 1 ==> l.wf(*head),
            l@ == (LoopV { head: head.uid, p: presenter_view(p), beat: Beat::Waiting, fence: false, shown: false }),
    {
        FrameLoop { head: head.uid, p, beat: Beat::Waiting, fence: false, shown: false }
    }

    /// Takes what came of the last act. `in_flight` counts the frames of all heads that
    /// the gpu works on. The feedbacks in the second result are told that their frame is on
    /// glass, those in the third that it never will be.
    pub fn step(&mut self, head: &mut Output, news: News, in_flight: &mut u32) -> (r: (Act, Vec<Presented>, Vec<u64>))
        requires
            old(self).wf(*old(head)),
            expected(old(self).beat, news@),
            *old(in_flight) < u32::MAX,
        ensures
            final(self).wf(*final(head)),
            r.1@ == (match news@ {
                NewsV::Woke(_, completed, done) => old(self).p.told(woken_head(*old(head), completed), done),
                _ => Seq::empty(),
            }),
            ({
                let s = loop_step(old(self)@, *old(head), news@, *old(in_flight) as int);
                &&& final(self)@ == s.l
                &&& *final(head) == s.head
                &&& *final(in_flight) == s.in_flight
                &&& r.0 == s.act
                &&& r.2@ == s.discarded
            }),
    {
        let nobody: Vec<Presented> = Vec::new();
        let nothing: Vec<u64> = Vec::new();
        match news {
            News::Woke { damage, completed, done } => {
                let (act, told) = self.woke(head, damage, completed, done, in_flight);
                (act, told, nothing)
            },
            News::Rendered { claimed, animating, fence, vrr_wanted, tearing, vrr_dirty } => {
                let act: Act = self.rendered(
                    head,
                    claimed,
                    animating,
                    fence,
                    vrr_wanted,
                    tearing,
                    vrr_dirty,
                    in_flight,
                );
                (act, nobody, nothing)
            },
            News::RenderFailed { claimed, animating } => {
                let act: Act = self.render_failed(head, claimed, animating, in_flight);
                (act, nobody, nothing)
            },
            News::FenceSignalled => {
                let act: Act = self.signalled(head, in_flight);
                (act, nobody, nothing)
            },
            News::AsyncRefused => {
                let act: Act = self.refused(head, in_flight);
                (act, nobody, nothing)
            },
            News::Flip(reply) => {
                let (act, discarded) = self.answered(head, reply, in_flight);
                (act, nobody, discarded)
            },
        }
    }

    fn woke(
        &mut self,
        head: &mut Output,
        damage: bool,
        completed: bool,
        done: FlipDone,
        in_flight: &u32,
    ) -> (r: (Act, Vec<Presented>))
        requires
            old(self).wf(*old(head)),
            old(self).beat is Waiting,
            done.usec * 1000 <= u32::MAX,
        ensures
            final(self).wf(*final(head)),
            r.1@ == old(self).p.told(woken_head(*old(head), completed), done),
            loop_step(old(self)@, *old(head), NewsV::Woke(damage, completed, done), *in_flight as int) == only(
                final(self)@,
                *final(head),
                *in_flight as int,
                r.0,
            ),
    {
        if completed {
            head.flip_pending = false;
        }
        assert(*head == woken_head(*old(head), completed));
        let (wake, told) = self.p.wake(head, damage, done);
        assert(presenter_view(self.p) =~= after_wake(old(self)@.p, *head, damage));
        let act: Act = match wake {
            Wake::Idle => Act::Sleep,
            Wake::Render { back } => {
                self.beat = Beat::Rendering { back };
                Act::Render { back, undefined: if back == 0 { self.p.undefined.0 } else { self.p.undefined.1 } }
            },
        };
        (act, told)
    }

    fn rendered(
        &mut self,
        head: &mut Output,
        claimed: Vec<u64>,
        animating: bool,
        fence: bool,
        vrr_wanted: bool,
        tearing: bool,
        vrr_dirty: bool,
        in_flight: &mut u32,
    ) -> (act: Act)
        requires
            old(self).wf(*old(head)),
            old(self).beat is Rendering,
            *old(in_flight) < u32::MAX,
        ensures
            final(self).wf(*final(head)),
            loop_step(
                old(self)@,
                *old(head),
                NewsV::Rendered(claimed@, animating, fence, vrr_wanted, tearing, vrr_dirty),
                *old(in_flight) as int,
            ) == only(final(self)@, *final(head), *final(in_flight) as int, act),
    {
        let back: usize = self.back();
        head.anim_pending = animating;
        *in_flight = *in_flight + 1;
        let mode: FlipMode = self.drawn(back, claimed, fence, vrr_wanted, tearing, vrr_dirty);
        let ghost drawn = self@;
        let act: Act = match mode {
            FlipMode::Async => if fence {
                self.beat = Beat::Settling { back };
                Act::Await
            } else {
                self.beat = Beat::Tearing { back };
                Act::FlipAsync { back }
            },
            FlipMode::Sync => {
                self.beat = Beat::Flipping { back };
                Act::Flip { back, fenced: fence }
            },
        };
        assert(self@ == (LoopV { beat: self.beat, ..drawn }));
        act
    }

    fn drawn(
        &mut self,
        back: usize,
        claimed: Vec<u64>,
        fence: bool,
        vrr_wanted: bool,
        tearing: bool,
        vrr_dirty: bool,
    ) -> (mode: FlipMode)
        requires
            back <= 1,
        ensures
            final(self)@ == (LoopV { p: after_render(old(self)@.p, back as int, claimed@, vrr_wanted), fence, ..old(self)@ }),
            mode == (if tearing && !vrr_dirty { FlipMode::Async } else { FlipMode::Sync }),
    {
        let ghost was = presenter_view(self.p);
        let ghost more = claimed@;
        let mut claimed: Vec<u64> = claimed;
        self.p.latched.append(&mut claimed);
        self.fence = fence;
        let mode: FlipMode = self.p.rendered(back, vrr_wanted, tearing, vrr_dirty);
        assert(presenter_view(self.p) =~= after_render(was, back as int, more, vrr_wanted));
        mode
    }

    fn render_failed(&mut self, head: &mut Output, claimed: Vec<u64>, animating: bool, in_flight: &u32) -> (act: Act)
        requires
            old(self).wf(*old(head)),
            old(self).beat is Rendering,
        ensures
            final(self).wf(*final(head)),
            loop_step(
                old(self)@,
                *old(head),
                NewsV::RenderFailed(claimed@, animating),
                *in_flight as int,
            ) == only(final(self)@, *final(head), *in_flight as int, act),
    {
        let ghost was = presenter_view(self.p);
        let ghost more = claimed@;
        let mut claimed: Vec<u64> = claimed;
        self.p.latched.append(&mut claimed);
        assert(presenter_view(self.p) =~= (PresenterV { latched: was.latched + more, ..was }));
        head.anim_pending = animating;
        self.beat = Beat::Waiting;
        Act::Sleep
    }

    fn signalled(&mut self, head: &Output, in_flight: &mut u32) -> (act: Act)
        requires
            old(self).wf(*head),
            old(self).beat is Settling || old(self).beat is Finishing,
        ensures
            final(self).wf(*head),
            loop_step(old(self)@, *head, NewsV::FenceSignalled, *old(in_flight) as int) == only(
                final(self)@,
                *head,
                *final(in_flight) as int,
                act,
            ),
    {
        match self.beat {
            Beat::Settling { back } => {
                self.beat = Beat::Tearing { back };
                Act::FlipAsync { back }
            },
            _ => self.finish(head, in_flight),
        }
    }

    fn refused(&mut self, head: &Output, in_flight: &u32) -> (act: Act)
        requires
            old(self).wf(*head),
            old(self).beat is Tearing,
        ensures
            final(self).wf(*head),
            loop_step(old(self)@, *head, NewsV::AsyncRefused, *in_flight as int) == only(
                final(self)@,
                *head,
                *in_flight as int,
                act,
            ),
    {
        let back: usize = self.back();
        self.beat = Beat::Flipping { back };
        Act::Flip { back, fenced: self.fence }
    }

    fn answered(&mut self, head: &mut Output, reply: FlipReply, in_flight: &mut u32) -> (r: (Act, Vec<u64>))
        requires
            old(self).wf(*old(head)),
            old(self).beat is Tearing || old(self).beat is Flipping,
        ensures
            final(self).wf(*final(head)),
            ({
                let s = loop_step(old(self)@, *old(head), NewsV::Flip(reply), *old(in_flight) as int);
                &&& final(self)@ == s.l
                &&& *final(head) == s.head
                &&& *final(in_flight) == s.in_flight
                &&& r.0 == s.act
                &&& r.1@ == s.discarded
            }),
    {
        let back: usize = self.back();
        match self.beat {
            Beat::Tearing { .. } => self.p.tore(),
            _ => {},
        }
        let ghost sent = presenter_view(self.p);
        let discarded: Vec<u64> = self.p.flipped(head, back, reply);
        assert(presenter_view(self.p) =~= after_flip(sent, reply));
        assert(discarded@ =~= dropped(sent, reply));
        self.shown = match reply {
            FlipReply::Queued => true,
            _ => false,
        };
        if self.fence {
            self.beat = Beat::Finishing;
            return (Act::Await, discarded);
        }
        let act: Act = self.finish(head, in_flight);
        (act, discarded)
    }

    fn back(&self) -> (r: usize)
        requires
            back_of(self.beat) <= 1,
        ensures
            r == back_of(self.beat),
            r <= 1,
    {
        match self.beat {
            Beat::Rendering { back } => back,
            Beat::Settling { back } => back,
            Beat::Tearing { back } => back,
            Beat::Flipping { back } => back,
            _ => 0,
        }
    }

    fn finish(&mut self, head: &Output, in_flight: &mut u32) -> (act: Act)
        ensures
            finished(old(self)@, *head, *old(in_flight) as int) == only(
                final(self)@,
                *head,
                *final(in_flight) as int,
                act,
            ),
            final(self).p == old(self).p,
            final(self).head == old(self).head,
    {
        let (left, parked) = frame_done(*in_flight);
        *in_flight = left;
        let textures: bool = self.fence;
        let shown: bool = self.shown;
        self.beat = Beat::Waiting;
        self.fence = false;
        self.shown = false;
        Act::Finish { textures, parked, shown }
    }
}

/// A frame is never drawn into the buffer on glass.
pub proof fn the_front_is_never_drawn(l: FrameLoop, head: Output, news: NewsV, in_flight: int)
    requires
        l.wf(head),
        expected(l.beat, news),
    ensures
        loop_step(l@, head, news, in_flight).act matches Act::Render { back, .. } ==> back != head.front,
{
}

/// A frame the kernel never took is drawn again: unless its flip was queued, the head
/// stays dirty.
pub proof fn lost_frames_are_drawn_again(l: LoopV, head: Output, reply: FlipReply, in_flight: int)
    requires
        !(reply is Queued),
    ensures
        loop_step(l, head, NewsV::Flip(reply), in_flight).l.p.dirty,
{
}

/// Once rendered, a frame is counted until it is finished, and then no longer.
pub proof fn frames_are_counted(l: LoopV, head: Output, news: NewsV, in_flight: int)
    requires
        in_flight >= 1,
    ensures
        ({
            let s = loop_step(l, head, news, in_flight);
            s.in_flight == in_flight + (if news is Rendered { 1int } else { 0 }) - (if s.act is Finish {
                1int
            } else {
                0
            })
        }),
{
}

/// Whatever the device does to a head, its loop goes on from where it is.
pub proof fn device_events_keep_the_loop(l: FrameLoop, head: Output, ev: DeviceEvent, sw: bool)
    requires
        l.wf(head),
    ensures
        l.wf(event_head(ev, sw)(head)),
{
}

/// A head that the device paused or took away sleeps through damage, animations and
/// completed flips, and stays dirty for when it comes back.
pub proof fn paused_heads_sleep(
    l: LoopV,
    head: Output,
    ev: DeviceEvent,
    sw: bool,
    damage: bool,
    completed: bool,
    done: FlipDone,
    in_flight: int,
)
    requires
        ev is Pause || ev is Gone,
    ensures
        ({
            let gone = event_head(ev, sw)(head);
            let s = loop_step(l, gone, NewsV::Woke(damage, completed, done), in_flight);
            &&& s.act is Sleep
            &&& s.head.paused
            &&& s.l.p.dirty == due(l.p, gone, damage)
        }),
{
}

/// After a resume, a head with something to show renders at the next wake, whether or not
/// a flip was on its way when the device left: that flip never completes.
pub proof fn resumed_heads_render(
    l: LoopV,
    head: Output,
    sw: bool,
    damage: bool,
    completed: bool,
    done: FlipDone,
    in_flight: int,
)
    ensures
        ({
            let back = event_head(DeviceEvent::Resume, sw)(head);
            let s = loop_step(l, back, NewsV::Woke(damage, completed, done), in_flight);
            s.act is Render <==> due(l.p, back, damage)
        }),
{
}

/// A head that is dark on request sleeps too, and once lit again renders what is due.
pub proof fn dark_heads_sleep(
    l: LoopV,
    head: Output,
    damage: bool,
    completed: bool,
    done: FlipDone,
    in_flight: int,
)
    ensures
        ({
            let woke = NewsV::Woke(damage, completed, done);
            let dark = loop_step(l, dpms_head(false)(head), woke, in_flight);
            &&& dark.act is Sleep
            &&& loop_step(dark.l, dpms_head(true)(dark.head), woke, in_flight).act is Render <==> due(l.p, head, damage)
        }),
{
}

/// A flip that lost the card pauses the head, which then sleeps until the device resumes;
/// the first wake after that draws the lost frame again, damage or not.
pub proof fn lost_masters_render_after_resume(
    l: LoopV,
    head: Output,
    sw: bool,
    damage: bool,
    completed: bool,
    done: FlipDone,
    in_flight: int,
)
    ensures
        ({
            let lost = loop_step(l, head, NewsV::Flip(FlipReply::LostMaster), in_flight);
            let woke = NewsV::Woke(damage, completed, done);
            &&& lost.head.paused
            &&& loop_step(lost.l, lost.head, woke, in_flight).act is Sleep
            &&& loop_step(lost.l, event_head(DeviceEvent::Resume, sw)(lost.head), woke, in_flight).act is Render
        }),
{
}

/// A queued flip of a buffer is what is on glass from then on: the head set that a resume
/// commits, before or after it ran, shows that buffer on this head.
pub proof fn queued_frames_are_on_glass(l: LoopV, outs: Seq<Output>, i: int, sw: bool, in_flight: int)
    requires
        0 <= i < outs.len(),
        !(l.beat is Waiting || l.beat is Finishing),
        0 <= back_of(l.beat) <= 1,
    ensures
        ({
            let s = loop_step(l, outs[i], NewsV::Flip(FlipReply::Queued), in_flight);
            let shown = outs.update(i, s.head);
            let fb = if back_of(l.beat) == 0 { outs[i].fbs.0 } else { outs[i].fbs.1 };
            &&& s.head == (Output { front: back_of(l.beat) as usize, flip_pending: true, ..outs[i] })
            &&& head_set(shown)[i] == (outs[i].conn, fb)
            &&& head_set(crate::output::cursor::each(shown, event_head(DeviceEvent::Resume, sw)))[i] == (
                outs[i].conn,
                fb,
            )
        }),
{
}

/// A frame ends as shown exactly when the kernel took its flip, whether or not the gpu had to
/// be waited for.
pub proof fn only_queued_frames_are_shown(l: LoopV, head: Output, reply: FlipReply, in_flight: int)
    ensures
        ({
            let s = loop_step(l, head, NewsV::Flip(reply), in_flight);
            let over = if l.fence {
                loop_step(s.l, s.head, NewsV::FenceSignalled, s.in_flight)
            } else {
                s
            };
            over.act matches Act::Finish { shown, .. } && shown == (reply is Queued)
        }),
{
}

/// One flip at a time: from the moment a flip is queued the head sleeps, until the flip
/// completed.
pub proof fn one_flip_at_a_time(l: LoopV, head: Output, m: LoopV, damage: bool, done: FlipDone, in_flight: int)
    ensures
        ({
            let s = loop_step(l, head, NewsV::Flip(FlipReply::Queued), in_flight);
            &&& loop_step(m, s.head, NewsV::Woke(damage, false, done), in_flight).act is Sleep
            &&& loop_step(m, s.head, NewsV::Woke(true, true, done), in_flight).act is Render <==> !head.paused
        }),
{
}

/// Animations run on without damage: once the flip of a frame completed, the next wake
/// renders exactly when the frame's items held an animation, whether or not the gpu had to
/// be waited for. A frame that could not be rendered is followed up in the same way.
pub proof fn animations_keep_rendering(
    l: LoopV,
    head: Output,
    items: Seq<Item>,
    fence: bool,
    vrr: bool,
    done: FlipDone,
    in_flight: int,
)
    requires
        l.beat is Rendering,
        !l.p.dirty,
        is_free(head),
    ensures
        ({
            let drawn = loop_step(l, head, rendered_news(items, fence, vrr, false, false), in_flight);
            let queued = loop_step(drawn.l, drawn.head, NewsV::Flip(FlipReply::Queued), drawn.in_flight);
            let over = if fence {
                loop_step(queued.l, queued.head, NewsV::FenceSignalled, queued.in_flight)
            } else {
                queued
            };
            &&& over.act is Finish
            &&& loop_step(over.l, over.head, NewsV::Woke(false, true, done), over.in_flight).act is Render
                <==> samples_animation(items)
        }),
        ({
            let failed = loop_step(
                l,
                head,
                NewsV::RenderFailed(claims_of(items), samples_animation(items)),
                in_flight,
            );
            loop_step(failed.l, failed.head, NewsV::Woke(false, false, done), in_flight).act is Render
                <==> samples_animation(items)
        }),
{
}

/// Without damage, a free head renders exactly when it animates or stayed dirty.
pub proof fn undamaged_heads_render_when_due(l: LoopV, head: Output, completed: bool, done: FlipDone, in_flight: int)
    requires
        is_free(woken_head(head, completed)),
    ensures
        loop_step(l, head, NewsV::Woke(false, completed, done), in_flight).act is Render <==> head.anim_pending
            || l.p.dirty,
{
}

} // verus!
