//! The tail of a frame: the captures that waited for the output are served, then the lock
//! hears of it, if the frame reaches glass, then the casts are fed.
//! The caller carries out each copy and reports what came of it.
use crate::list::find;
use crate::output::{first_slot, Output};
use crate::portal::cast::{self, presented_casts, Cast, Desktop, Feed, NodeState};
use crate::protocol::events::{Out, Sent};
use crate::protocol::image_copy_capture::{
    self, awaits_output, failure, readiness, serving, slots_of, with_failed_frame, CaptureJob, FrameStatus, IccSession,
    LiveWindow, REASON_UNKNOWN,
};
use crate::protocol::session_lock::{self, presented, presented_news, LockSlot};
use crate::protocol::shm::WlBuffer;
use vstd::prelude::*;

verus! {

/// How far the tail of a frame has come.
pub struct Tail {
    /// the output whose frame it was
    pub name: String,
    /// the kernel took the frame: it is presented
    pub shown: bool,
    /// slots of the sessions that waited for the frame
    pub waiting: Vec<usize>,
    /// the one that is served
    pub at: usize,
}

/// What came of the last act.
#[derive(Clone, Copy, Debug, PartialEq, Eq, Structural)]
pub enum Came {
    /// nothing was asked for yet
    Begun,
    /// the copy was made, at this time
    Copied { nsec: u64 },
    CopyFailed,
}

/// What to do next.
pub enum TailAct {
    /// copy pixels for the session in this slot
    Copy { session: usize, job: CaptureJob },
    /// the tail is over: what each cast is fed
    Over { feeds: Vec<Feed> },
}

pub open spec fn is_buffer(uid: u64) -> spec_fn(WlBuffer) -> bool {
    |b: WlBuffer| b.uid == uid
}

/// The buffer with this identity.
pub open spec fn buffer_in(bufs: Seq<WlBuffer>, uid: Option<u64>) -> Option<WlBuffer> {
    match uid {
        None => None,
        Some(u) => match first_slot(bufs, is_buffer(u)) {
            Some(k) => Some(bufs[k]),
            None => None,
        },
    }
}

/// Every attached buffer is among these.
pub open spec fn buffers_known(list: Seq<IccSession>, bufs: Seq<WlBuffer>) -> bool {
    &&& forall|i: int| 0 <= i < bufs.len() ==> (#[trigger] bufs[i]).wf()
    &&& forall|i: int| 0 <= i < list.len() ==> ((#[trigger] list[i]).buffer is Some ==> buffer_in(bufs, list[i].buffer) is Some)
}

/// A session once its copy was made or failed, and what its client hears of it.
pub open spec fn copied(s: IccSession, bufs: Seq<WlBuffer>, came: Came) -> (IccSession, Seq<Sent>) {
    let b = buffer_in(bufs, s.buffer)->0;
    match came {
        Came::Begun => (s, Seq::empty()),
        Came::Copied { nsec } => (
            IccSession { status: FrameStatus::Ready, force: false, ..s },
            readiness(s.client, s.frame->0, (b.rect.x2 - b.rect.x1) as u32, (b.rect.y2 - b.rect.y1) as u32, nsec),
        ),
        Came::CopyFailed => (with_failed_frame(s), failure(s, REASON_UNKNOWN)),
    }
}

/// The sessions served up to the next copy.
#[verifier::ext_equal]
pub ghost struct Served {
    pub list: Seq<IccSession>,
    pub events: Seq<Sent>,
    pub at: int,
    pub job: Option<CaptureJob>,
}

/// Serves the waiting sessions in order from `at` on, until one has pixels to copy.
pub open spec fn serve_from(
    list: Seq<IccSession>,
    outs: Seq<Output>,
    windows: Seq<LiveWindow>,
    bufs: Seq<WlBuffer>,
    waiting: Seq<usize>,
    at: int,
) -> Served
    decreases waiting.len() - at,
{
    if at >= waiting.len() {
        Served { list, events: Seq::empty(), at, job: None }
    } else {
        let k = waiting[at] as int;
        let v = serving(list[k], list[k].source.resolved(outs, windows), buffer_in(bufs, list[k].buffer));
        let after = list.update(k, v.session);
        if v.job is Some {
            Served { list: after, events: v.events, at, job: v.job }
        } else {
            let rest = serve_from(after, outs, windows, bufs, waiting, at + 1);
            Served { events: v.events + rest.events, ..rest }
        }
    }
}

fn find_buffer(bufs: &Vec<WlBuffer>, uid: Option<u64>) -> (r: Option<&WlBuffer>)
    ensures
        match buffer_in(bufs@, uid) {
            None => r is None,
            Some(b) => r matches Some(c) && *c == b && (uid matches Some(u) && b.uid == u) && bufs@.contains(b),
        },
{
    match uid {
        None => None,
        Some(u) => match find(
            bufs,
            |b: &WlBuffer| -> (r: bool) ensures r == (b.uid == u) { b.uid == u },
            Ghost(is_buffer(u)),
        ) {
            None => None,
            Some(k) => {
                assert(bufs@[k as int].uid == u);
                Some(&bufs[k])
            },
        },
    }
}

impl Tail {
    pub open spec fn wf(self, list: Seq<IccSession>, came: Came) -> bool {
        &&& self.at <= self.waiting@.len()
        &&& forall|i: int| 0 <= i < self.waiting@.len() ==> #[trigger] self.waiting@[i] < list.len()
        &&& came is Begun ==> self.at == 0
        &&& !(came is Begun) ==> self.at < self.waiting@.len() && {
            let s = list[self.waiting@[self.at as int] as int];
            s.frame is Some && s.buffer is Some
        }
    }

    /// The tail of a frame of an output.
    pub fn new(list: &Vec<IccSession>, name: String, shown: bool) -> (t: Tail)
        ensures
            t.wf(list@, Came::Begun),
            t.name == name,
            t.shown == shown,
            t.waiting@ == slots_of(list@, awaits_output(name@)),
    {
        let waiting: Vec<usize> = image_copy_capture::output_presented(list, name.as_str());
        let n: usize = list.len();
        proof {
            assert(n == list@.len());
            slots_are_inside(list@, awaits_output(name@));
        }
        Tail { name, shown, waiting, at: 0 }
    }

    /// Goes on with the tail. While captures wait, the lock and the casts stay as they are;
    /// once the last is served, the lock hears of a frame that reaches glass, and after it
    /// the casts are fed.
    pub fn step(
        &mut self,
        came: Came,
        list: &mut Vec<IccSession>,
        outs: &Vec<Output>,
        windows: &Vec<LiveWindow>,
        bufs: &Vec<WlBuffer>,
        lock: &mut LockSlot,
        out: &mut Out,
        casts: &mut Vec<Cast>,
        d: &Desktop,
        nodes: &Vec<NodeState>,
        now: u64,
    ) -> (r: TailAct)
        requires
            old(self).wf(old(list)@, came),
            buffers_known(old(list)@, bufs@),
            nodes@.len() == old(casts)@.len(),
        ensures
            final(self).name == old(self).name,
            final(self).shown == old(self).shown,
            final(self).waiting == old(self).waiting,
            ({
                let waiting = old(self).waiting@;
                let first = copied_in(*old(self), old(list)@, bufs@, came);
                let v = serve_from(first.0, outs@, windows@, bufs@, waiting, resume_at(*old(self), came));
                &&& final(list)@ == v.list
                &&& final(self).at == v.at
                &&& match v.job {
                    Some(job) => {
                        &&& r == (TailAct::Copy { session: waiting[v.at], job })
                        &&& job.wf()
                        &&& final(self).wf(final(list)@, Came::CopyFailed)
                        &&& *final(lock) == *old(lock)
                        &&& *final(casts) == *old(casts)
                        &&& final(out).sent@ == old(out).sent@ + first.1 + v.events
                    },
                    None => {
                        &&& r is Over
                        &&& if old(self).shown {
                            presented(*old(lock), *final(lock), old(self).name@)
                        } else {
                            *final(lock) == *old(lock)
                        }
                        &&& presented_casts(old(casts)@, final(casts)@, r->feeds@, *d, old(self).name@, nodes@, now)
                        &&& final(out).sent@ == old(out).sent@ + first.1 + v.events + (if old(self).shown {
                            presented_news(*old(lock), old(self).name@)
                        } else {
                            Seq::empty()
                        })
                    },
                }
            }),
    {
        let ghost had = out.sent@;
        let ghost first = copied_in(*self, list@, bufs@, came);
        self.settle(came, list, bufs, out);
        let ghost from = self.at as int;
        let ghost after = out.sent@;
        let job: Option<CaptureJob> = self.serve(list, outs, windows, bufs, out);
        let ghost v = serve_from(first.0, outs@, windows@, bufs@, self.waiting@, from);
        assert(out.sent@ =~= had + first.1 + v.events);
        match job {
            Some(job) => TailAct::Copy { session: self.waiting[self.at], job },
            None => {
                if self.shown {
                    session_lock::output_presented(lock, out, self.name.as_str());
                } else {
                    assert(out.sent@ =~= out.sent@ + Seq::<Sent>::empty());
                }
                let feeds: Vec<Feed> = cast::output_presented(casts, d, self.name.as_str(), nodes, now);
                TailAct::Over { feeds }
            },
        }
    }

    fn settle(&mut self, came: Came, list: &mut Vec<IccSession>, bufs: &Vec<WlBuffer>, out: &mut Out)
        requires
            old(self).wf(old(list)@, came),
            buffers_known(old(list)@, bufs@),
        ensures
            *final(self) == (Tail { at: final(self).at, ..*old(self) }),
            final(self).at == resume_at(*old(self), came),
            final(list)@ == copied_in(*old(self), old(list)@, bufs@, came).0,
            final(out).sent@ == old(out).sent@ + copied_in(*old(self), old(list)@, bufs@, came).1,
            buffers_known(final(list)@, bufs@),
    {
        let n: usize = self.waiting.len();
        assert(self.at <= n);
        match came {
            Came::Begun => {
                assert(out.sent@ =~= old(out).sent@ + Seq::<Sent>::empty());
            },
            Came::Copied { nsec } => {
                let k: usize = self.waiting[self.at];
                match find_buffer(bufs, list[k].buffer) {
                    None => {},
                    Some(b) => {
                        assert(b.wf());
                        let size: (u32, u32) = (b.rect.width() as u32, b.rect.height() as u32);
                        list[k].served(out, true, size, nsec);
                    },
                }
                self.at = self.at + 1;
            },
            Came::CopyFailed => {
                let k: usize = self.waiting[self.at];
                list[k].served(out, false, (0, 0), 0);
                self.at = self.at + 1;
            },
        }
        assert(list@ =~= copied_in(*old(self), old(list)@, bufs@, came).0);
    }

    fn serve(
        &mut self,
        list: &mut Vec<IccSession>,
        outs: &Vec<Output>,
        windows: &Vec<LiveWindow>,
        bufs: &Vec<WlBuffer>,
        out: &mut Out,
    ) -> (r: Option<CaptureJob>)
        requires
            old(self).at <= old(self).waiting@.len(),
            forall|i: int| 0 <= i < old(self).waiting@.len() ==> #[trigger] old(self).waiting@[i] < old(list)@.len(),
            buffers_known(old(list)@, bufs@),
        ensures
            *final(self) == (Tail { at: final(self).at, ..*old(self) }),
            ({
                let v = serve_from(old(list)@, outs@, windows@, bufs@, old(self).waiting@, old(self).at as int);
                &&& final(list)@ == v.list
                &&& final(self).at == v.at
                &&& r == v.job
                &&& final(out).sent@ == old(out).sent@ + v.events
            }),
            r matches Some(job) ==> job.wf() && final(self).wf(final(list)@, Came::CopyFailed),
            final(list)@.len() == old(list)@.len(),
    {
        let n: usize = self.waiting.len();
        let ghost all = serve_from(list@, outs@, windows@, bufs@, self.waiting@, self.at as int);
        let ghost mut said: Seq<Sent> = Seq::empty();
        assert(out.sent@ =~= old(out).sent@ + said);
        assert(all =~= (Served { events: said + all.events, ..all }));
        while self.at < n
            invariant
                n == self.waiting@.len(),
                self.at <= n,
                *self == (Tail { at: self.at, ..*old(self) }),
                list@.len() == old(list)@.len(),
                forall|i: int| 0 <= i < n ==> #[trigger] self.waiting@[i] < list@.len(),
                buffers_known(list@, bufs@),
                all == serve_from(old(list)@, outs@, windows@, bufs@, old(self).waiting@, old(self).at as int),
                ({
                    let rest = serve_from(list@, outs@, windows@, bufs@, self.waiting@, self.at as int);
                    all == (Served { events: said + rest.events, ..rest })
                }),
                out.sent@ == old(out).sent@ + said,
            decreases n - self.at,
        {
            let k: usize = self.waiting[self.at];
            let ghost before = list@;
            let ghost sent_before = out.sent@;
            let buf: Option<&WlBuffer> = find_buffer(bufs, list[k].buffer);
            assert(buf matches Some(b) ==> b.wf());
            let job: Option<CaptureJob> = list[k].service(out, outs, windows, buf);
            let ghost v = serving(
                before[k as int],
                before[k as int].source.resolved(outs@, windows@),
                buffer_in(bufs@, before[k as int].buffer),
            );
            assert(list@ =~= before.update(k as int, v.session));
            assert(v.session.buffer == before[k as int].buffer);
            assert(out.sent@ =~= old(out).sent@ + (said + v.events));
            proof {
                let rest = serve_from(list@, outs@, windows@, bufs@, self.waiting@, self.at + 1);
                assert(said + (v.events + rest.events) =~= said + v.events + rest.events);
            }
            if job.is_some() {
                return job;
            }
            proof {
                said = said + v.events;
            }
            self.at = self.at + 1;
        }
        assert(said + Seq::<Sent>::empty() =~= said);
        None
    }
}

/// Where serving goes on.
pub open spec fn resume_at(t: Tail, came: Came) -> int {
    if came is Begun { 0 } else { t.at + 1 }
}

/// The sessions once the last copy is settled, and what is said of it.
pub open spec fn copied_in(t: Tail, list: Seq<IccSession>, bufs: Seq<WlBuffer>, came: Came) -> (Seq<IccSession>, Seq<Sent>) {
    if came is Begun {
        (list, Seq::empty())
    } else {
        let k = t.waiting@[t.at as int] as int;
        let c = copied(list[k], bufs, came);
        (list.update(k, c.0), c.1)
    }
}

proof fn slots_are_inside(list: Seq<IccSession>, p: spec_fn(IccSession) -> bool)
    requires
        list.len() <= usize::MAX,
    ensures
        forall|i: int| 0 <= i < slots_of(list, p).len() ==> #[trigger] slots_of(list, p)[i] < list.len(),
    decreases list.len(),
{
    if list.len() > 0 {
        let front = slots_of(list.drop_last(), p);
        slots_are_inside(list.drop_last(), p);
        assert forall|i: int| 0 <= i < slots_of(list, p).len() implies #[trigger] slots_of(list, p)[i] < list.len() by {
            if i < front.len() {
                assert(front[i] < list.drop_last().len());
            }
        }
    }
}

} // verus!
