//! Bringing up a display: which card is used, and which heads of it. The caller
//! carries out what is asked for and reports what came of it.
use crate::output::bringup::{
    after_commit, bandwidth_refusal, bind_workspaces, boot_bound, card_nodes, cramped, cramped_spec, in_order, names_card,
    number_heads, place_head, placed_spec, span_prefix, BringUp, CommitReply,
};
use crate::output::cursor::{benched_head, each, seed_cursor, seeded, theme_of_first, CursorImage};
use crate::output::present::{config_named, preferred_mode, OutputConfig};
use crate::output::topology::{bottom_edge, farthest, right_edge, span, union_extent};
use crate::output::{first_slot, sizes_fit, Display, Output};
use vstd::prelude::*;

verus! {

/// What is waited for.
#[derive(Clone, Copy, Debug, PartialEq, Eq, Structural)]
pub enum Phase {
    /// a card is being opened
    Opening,
    /// a head is being made
    Making,
    /// a head is being moved to a slower mode
    Stepping,
    /// all heads are being committed at once
    Committing,
    Over,
}

/// What came of it.
pub enum Reply {
    /// the card cannot be used
    NoCard,
    /// the card is open; these connectors got a pipe
    Card { conns: Vec<u32> },
    /// the head could not be made
    NoHead,
    /// the head, the theme's cursor, and the pixels of the arrow
    Head { head: Output, theme: Option<CursorImage>, arrow: u64 },
    /// the refresh of the mode it has now
    Stepped(u32),
    /// it has no slower mode
    Lowest,
    Commit(CommitReply),
}

/// What to do next.
pub enum Then {
    Open { card: usize },
    Make { conn: u32 },
    StepDown { slot: usize },
    /// commit these connectors, each with its framebuffer
    Commit(Vec<(u32, u32)>),
    /// the display is on
    Lit,
    /// no card is left
    Headless,
}

/// What to do next, as a contract speaks of it.
pub ghost enum ThenV {
    Open(nat),
    Make(u32),
    StepDown(nat),
    Commit(Seq<(u32, u32)>),
    Lit,
    Headless,
}

impl View for Then {
    type V = ThenV;

    open spec fn view(&self) -> ThenV {
        match self {
            Then::Open { card } => ThenV::Open(*card as nat),
            Then::Make { conn } => ThenV::Make(*conn),
            Then::StepDown { slot } => ThenV::StepDown(*slot as nat),
            Then::Commit(heads) => ThenV::Commit(heads@),
            Then::Lit => ThenV::Lit,
            Then::Headless => ThenV::Headless,
        }
    }
}

pub struct Boot {
    /// the cards in the order they are tried
    pub cards: Vec<String>,
    pub cfg: Vec<OutputConfig>,
    /// the next card
    pub next: usize,
    pub phase: Phase,
    /// the connectors of this card that got a pipe, and the next one
    pub conns: Vec<u32>,
    pub at: usize,
    /// the heads so far, and the width of their row
    pub outs: Vec<Output>,
    pub x: i32,
    /// the head whose mode is being changed
    pub slot: usize,
}

/// The progress of a bring-up, as a contract speaks of it.
pub ghost struct BootV {
    pub cards: Seq<String>,
    pub cfg: Seq<OutputConfig>,
    pub next: nat,
    pub phase: Phase,
    pub conns: Seq<u32>,
    pub at: nat,
    pub outs: Seq<Output>,
    pub x: int,
    pub slot: nat,
}

impl View for Boot {
    type V = BootV;

    open spec fn view(&self) -> BootV {
        BootV {
            cards: self.cards@,
            cfg: self.cfg@,
            next: self.next as nat,
            phase: self.phase,
            conns: self.conns@,
            at: self.at as nat,
            outs: self.outs@,
            x: self.x as int,
            slot: self.slot as nat,
        }
    }
}

/// Heads stand in a row from left to right and show one workspace each.
#[verifier::opaque]
pub open spec fn in_row(outs: Seq<Output>) -> bool {
    forall|i: int|
        0 <= i < outs.len() ==> {
            let o = #[trigger] outs[i];
            &&& o.pos == (span(outs, i as nat) as i32, 0i32)
            &&& o.ws == (if i < 8 { i } else { 8 })
            &&& o.usable == o.rect_spec()
        }
}

/// The mode of an output was configured by hand.
pub open spec fn asked_for(cfg: Seq<OutputConfig>, name: Seq<char>) -> bool {
    match first_slot(cfg, config_named(name)) {
        Some(k) => cfg[k].mode is Some,
        None => false,
    }
}

pub open spec fn hz(o: Output) -> u32 {
    match o.vrefresh {
        Some(v) => v,
        None => 0,
    }
}

/// Too fast for a second head; an explicit configuration wins, whatever it costs.
pub open spec fn too_fast(cfg: Seq<OutputConfig>, o: Output) -> bool {
    hz(o) > 144 && !asked_for(cfg, o.name@)
}

/// The next head, from slot `k` on, that must step down.
pub open spec fn next_fast(cfg: Seq<OutputConfig>, outs: Seq<Output>, k: nat) -> Option<nat>
    decreases outs.len() - k,
{
    if k >= outs.len() {
        None
    } else if too_fast(cfg, outs[k as int]) {
        Some(k)
    } else {
        next_fast(cfg, outs, k + 1)
    }
}

/// Every head with its first framebuffer.
pub open spec fn first_fbs(outs: Seq<Output>) -> Seq<(u32, u32)> {
    Seq::new(outs.len(), |i: int| (outs[i].conn, outs[i].fbs.0))
}

/// On to the next card, or headless when none is left.
pub open spec fn next_card(b: BootV) -> (BootV, ThenV) {
    let clean = BootV { conns: Seq::empty(), at: 0, outs: Seq::empty(), x: 0, slot: 0, ..b };
    if b.next < b.cards.len() {
        (BootV { phase: Phase::Opening, next: b.next + 1, ..clean }, ThenV::Open(b.next))
    } else {
        (BootV { phase: Phase::Over, ..clean }, ThenV::Headless)
    }
}

pub open spec fn commit_all(b: BootV) -> (BootV, ThenV) {
    (BootV { phase: Phase::Committing, ..b }, ThenV::Commit(first_fbs(b.outs)))
}

/// Steps heads down, from slot `k` on, and then commits.
pub open spec fn step_on(b: BootV, k: nat) -> (BootV, ThenV) {
    match next_fast(b.cfg, b.outs, k) {
        Some(j) => (BootV { phase: Phase::Stepping, slot: j, ..b }, ThenV::StepDown(j)),
        None => commit_all(b),
    }
}

/// Makes the next head; once all are there they are committed, the secondaries slower
/// first where scanout is linear.
pub open spec fn make_on(b: BootV) -> (BootV, ThenV) {
    if b.at < b.conns.len() {
        (BootV { phase: Phase::Making, at: b.at + 1, ..b }, ThenV::Make(b.conns[b.at as int]))
    } else if b.outs.len() == 0 {
        next_card(b)
    } else if cramped_spec(b.outs) {
        step_on(b, 1)
    } else {
        commit_all(b)
    }
}

/// Whether a reply is one to what is waited for.
pub open spec fn answers(phase: Phase, reply: Reply) -> bool {
    match reply {
        Reply::NoCard | Reply::Card { .. } => phase is Opening,
        Reply::NoHead | Reply::Head { .. } => phase is Making,
        Reply::Stepped(_) | Reply::Lowest => phase is Stepping,
        Reply::Commit(_) => phase is Committing,
    }
}

pub open spec fn boot_step(b: BootV, reply: Reply) -> (BootV, ThenV) {
    match reply {
        Reply::NoCard => next_card(b),
        Reply::Card { conns } => if conns@.len() == 0 {
            next_card(b)
        } else {
            make_on(BootV { conns: conns@, at: 0, ..b })
        },
        Reply::NoHead => make_on(b),
        Reply::Head { head, theme, arrow } => make_on(
            BootV {
                outs: b.outs.push(seeded(placed_spec(b.outs, head), theme, arrow)),
                x: b.x + head.width,
                ..b
            },
        ),
        Reply::Stepped(v) => step_on(
            BootV {
                outs: b.outs.update(b.slot as int, Output { vrefresh: Some(v), ..b.outs[b.slot as int] }),
                ..b
            },
            b.slot,
        ),
        Reply::Lowest => step_on(b, b.slot + 1),
        Reply::Commit(said) => if said is Accepted && b.outs.len() > 0 {
            (BootV { phase: Phase::Over, ..b }, ThenV::Lit)
        } else if bandwidth_refusal(said) && b.outs.len() > 0 {
            commit_all(BootV { outs: b.outs.drop_last(), x: b.x - b.outs.last().width, ..b })
        } else {
            next_card(b)
        },
    }
}

impl Boot {
    pub open spec fn wf(self) -> bool {
        &&& self.next <= self.cards@.len()
        &&& self.at <= self.conns@.len()
        &&& sizes_fit(self.outs@)
        &&& in_row(self.outs@)
        &&& self.x == span(self.outs@, self.outs@.len())
        &&& self.phase is Stepping ==> self.slot < self.outs@.len()
    }

    fn next_card(&mut self) -> (r: Then)
        requires
            old(self).next <= old(self).cards@.len(),
        ensures
            final(self).wf(),
            (final(self)@, r@) == next_card(old(self)@),
    {
        self.conns = Vec::new();
        self.at = 0;
        self.outs = Vec::new();
        self.x = 0;
        self.slot = 0;
        assert(self.conns@ =~= Seq::<u32>::empty());
        assert(self.outs@ =~= Seq::<Output>::empty());
        proof {
            reveal(in_row);
        }
        if self.next < self.cards.len() {
            let card: usize = self.next;
            self.next = card + 1;
            self.phase = Phase::Opening;
            Then::Open { card }
        } else {
            self.phase = Phase::Over;
            Then::Headless
        }
    }

    fn commit_all(&mut self) -> (r: Then)
        requires
            old(self).wf(),
        ensures
            final(self).wf(),
            (final(self)@, r@) == commit_all(old(self)@),
    {
        self.phase = Phase::Committing;
        let mut heads: Vec<(u32, u32)> = Vec::new();
        for i in 0..self.outs.len()
            invariant
                heads@ == first_fbs(self.outs@).take(i as int),
        {
            heads.push((self.outs[i].conn, self.outs[i].fbs.0));
            assert(heads@ =~= first_fbs(self.outs@).take(i + 1));
        }
        assert(first_fbs(self.outs@).take(self.outs@.len() as int) =~= first_fbs(self.outs@));
        Then::Commit(heads)
    }

    fn step_on(&mut self, k: usize) -> (r: Then)
        requires
            old(self).wf(),
        ensures
            final(self).wf(),
            (final(self)@, r@) == step_on(old(self)@, k as nat),
    {
        let mut j: usize = k;
        while j < self.outs.len()
            invariant
                *self == *old(self),
                self.wf(),
                k <= j,
                next_fast(self.cfg@, self.outs@, k as nat) == next_fast(self.cfg@, self.outs@, j as nat),
            decreases self.outs@.len() - j,
        {
            let rate: u32 = match self.outs[j].vrefresh {
                Some(v) => v,
                None => 0,
            };
            if rate > 144 && preferred_mode(&self.cfg, self.outs[j].name.as_str()).is_none() {
                self.phase = Phase::Stepping;
                self.slot = j;
                return Then::StepDown { slot: j };
            }
            j = j + 1;
        }
        self.commit_all()
    }

    fn make_on(&mut self) -> (r: Then)
        requires
            old(self).wf(),
        ensures
            final(self).wf(),
            (final(self)@, r@) == make_on(old(self)@),
    {
        if self.at < self.conns.len() {
            let conn: u32 = self.conns[self.at];
            self.at = self.at + 1;
            self.phase = Phase::Making;
            Then::Make { conn }
        } else if self.outs.len() == 0 {
            self.next_card()
        } else if cramped(&self.outs) {
            self.step_on(1)
        } else {
            self.commit_all()
        }
    }

    /// Takes the reply to what was asked for last.
    pub fn step(&mut self, reply: Reply) -> (r: Then)
        requires
            old(self).wf(),
            answers(old(self).phase, reply),
            reply matches Reply::Head { head, .. } ==> head.width <= i32::MAX && head.height <= i32::MAX && old(self).x + head.width <= i32::MAX,
        ensures
            final(self).wf(),
            (final(self)@, r@) == boot_step(old(self)@, reply),
    {
        match reply {
            Reply::NoCard => self.next_card(),
            Reply::Card { conns } => self.opened(conns),
            Reply::NoHead => self.make_on(),
            Reply::Head { head, theme, arrow } => {
                self.add_head(head, theme, arrow);
                self.make_on()
            },
            Reply::Stepped(v) => {
                self.slow_down(v);
                self.step_on(self.slot)
            },
            Reply::Lowest => {
                let n: usize = self.outs.len();
                assert(self.slot < n);
                self.step_on(self.slot + 1)
            },
            Reply::Commit(said) => self.committed(said),
        }
    }

    fn opened(&mut self, conns: Vec<u32>) -> (r: Then)
        requires
            old(self).wf(),
            old(self).phase is Opening,
        ensures
            final(self).wf(),
            (final(self)@, r@) == boot_step(old(self)@, Reply::Card { conns }),
    {
        if conns.len() == 0 {
            return self.next_card();
        }
        self.conns = conns;
        self.at = 0;
        self.make_on()
    }

    fn slow_down(&mut self, v: u32)
        requires
            old(self).wf(),
            old(self).phase is Stepping,
        ensures
            final(self).wf(),
            final(self).phase is Stepping,
            final(self)@ == (BootV {
                outs: old(self).outs@.update(
                    old(self).slot as int,
                    Output { vrefresh: Some(v), ..old(self).outs@[old(self).slot as int] },
                ),
                ..old(self)@
            }),
    {
        let ghost before = self.outs@;
        let k: usize = self.slot;
        self.outs[k].vrefresh = Some(v);
        proof {
            assert(self.outs@ =~= before.update(k as int, Output { vrefresh: Some(v), ..before[k as int] }));
            same_widths(before, self.outs@, before.len());
            row_of_same(before, self.outs@);
            assert forall|i: int| 0 <= i < self.outs@.len() implies (#[trigger] self.outs@[i]).width <= i32::MAX
                && self.outs@[i].height <= i32::MAX by {
                assert(before[i].width <= i32::MAX);
            }
        }
    }

    fn committed(&mut self, said: CommitReply) -> (r: Then)
        requires
            old(self).wf(),
            old(self).phase is Committing,
        ensures
            final(self).wf(),
            (final(self)@, r@) == boot_step(old(self)@, Reply::Commit(said)),
    {
        let ghost before = self.outs@;
        let n: usize = self.outs.len();
        let last: i32 = if n > 0 { self.outs[n - 1].width as i32 } else { 0 };
        match after_commit(&mut self.outs, said) {
            BringUp::Lit => {
                self.phase = Phase::Over;
                Then::Lit
            },
            BringUp::Again => {
                proof {
                    span_prefix(before, self.outs@, self.outs@.len());
                    span_bound(before, (before.len() - 1) as nat);
                    row_of_prefix(before, self.outs@);
                }
                self.x = self.x - last;
                self.commit_all()
            },
            BringUp::NextCard => self.next_card(),
        }
    }

    fn add_head(&mut self, head: Output, theme: Option<CursorImage>, arrow: u64)
        requires
            old(self).wf(),
            head.width <= i32::MAX,
            head.height <= i32::MAX,
            old(self).x + head.width <= i32::MAX,
            !(old(self).phase is Stepping),
        ensures
            final(self).wf(),
            final(self)@ == (BootV {
                outs: old(self).outs@.push(seeded(placed_spec(old(self).outs@, head), theme, arrow)),
                x: old(self).x + head.width,
                ..old(self)@
            }),
    {
        let ghost before = self.outs@;
        let n: usize = self.outs.len();
        self.x = place_head(&mut self.outs, self.x, head);
        let ghost placed = self.outs@;
        seed_cursor(&mut self.outs[n], theme, arrow);
        proof {
            reveal(in_row);
            let made = seeded(placed_spec(before, head), theme, arrow);
            assert(self.outs@ =~= before.push(made));
            same_widths(placed, self.outs@, placed.len());
            span_prefix(before, self.outs@, before.len());
            assert forall|i: int| 0 <= i < self.outs@.len() implies {
                let o = #[trigger] self.outs@[i];
                &&& o.pos == (span(self.outs@, i as nat) as i32, 0i32)
                &&& o.ws == (if i < 8 { i } else { 8 })
                &&& o.usable == o.rect_spec()
            } by {
                if i < before.len() {
                    assert(self.outs@[i] == before[i]);
                    span_prefix(before, self.outs@, i as nat);
                }
            }
        }
    }
}

proof fn same_widths(a: Seq<Output>, b: Seq<Output>, n: nat)
    requires
        n <= a.len(),
        a.len() == b.len(),
        forall|i: int| 0 <= i < a.len() ==> (#[trigger] a[i]).width == b[i].width,
    ensures
        span(a, n) == span(b, n),
    decreases n,
{
    if n > 0 {
        same_widths(a, b, (n - 1) as nat);
        assert(a[n - 1].width == b[n - 1].width);
    }
}

proof fn row_of_same(a: Seq<Output>, b: Seq<Output>)
    requires
        in_row(a),
        a.len() == b.len(),
        forall|i: int|
            0 <= i < a.len() ==> (#[trigger] b[i]) == (Output { vrefresh: b[i].vrefresh, ..a[i] }),
    ensures
        in_row(b),
{
    reveal(in_row);
    assert forall|i: int| 0 <= i < b.len() implies {
        let o = #[trigger] b[i];
        &&& o.pos == (span(b, i as nat) as i32, 0i32)
        &&& o.ws == (if i < 8 { i } else { 8 })
        &&& o.usable == o.rect_spec()
    } by {
        assert(b[i].pos == a[i].pos);
        same_widths(a, b, i as nat);
    }
}

proof fn row_of_prefix(a: Seq<Output>, b: Seq<Output>)
    requires
        in_row(a),
        b.len() <= a.len(),
        forall|i: int| 0 <= i < b.len() ==> a[i] == b[i],
    ensures
        in_row(b),
{
    reveal(in_row);
    assert forall|i: int| 0 <= i < b.len() implies {
        let o = #[trigger] b[i];
        &&& o.pos == (span(b, i as nat) as i32, 0i32)
        &&& o.ws == (if i < 8 { i } else { 8 })
        &&& o.usable == o.rect_spec()
    } by {
        assert(a[i] == b[i]);
        span_prefix(a, b, i as nat);
    }
}

proof fn span_bound(outs: Seq<Output>, n: nat)
    ensures
        0 <= span(outs, n),
    decreases n,
{
    if n > 0 {
        span_bound(outs, (n - 1) as nat);
    }
}

/// Starts a bring-up over the entries of the device directory.
pub fn start(entries: &Vec<String>, cfg: Vec<OutputConfig>) -> (r: (Boot, Then))
    ensures
        r.0.wf(),
        in_order(r.0.cards@),
        r.0.cards@.to_multiset() == entries@.filter(names_card()).to_multiset(),
        r.0.cfg@ == cfg@,
        r.0.cards@.len() == 0 ==> r.0.phase is Over && r.0.next == 0 && r.1 is Headless,
        r.0.cards@.len() > 0 ==> r.0.phase is Opening && r.0.next == 1 && r.1@ == ThenV::Open(0),
        r.0.outs@.len() == 0 && r.0.x == 0 && r.0.slot == 0,
        r.0.conns@.len() == 0 && r.0.at == 0,
{
    let cards: Vec<String> = card_nodes(entries);
    let mut b: Boot = Boot {
        cards,
        cfg,
        next: 0,
        phase: Phase::Opening,
        conns: Vec::new(),
        at: 0,
        outs: Vec::new(),
        x: 0,
        slot: 0,
    };
    let t: Then = b.next_card();
    (b, t)
}

/// A row starts at the origin, so its far corner is not negative.
proof fn extent_positive(outs: Seq<Output>, n: nat)
    requires
        1 <= n <= outs.len(),
        outs[0].pos == (0i32, 0i32),
        sizes_fit(outs),
    ensures
        farthest(outs, right_edge(), 0, n) >= 0,
        farthest(outs, bottom_edge(), 0, n) >= 0,
    decreases n,
{
    if n > 1 {
        extent_positive(outs, (n - 1) as nat);
    } else {
        assert(outs[0].width <= i32::MAX);
    }
}

/// The slots of a final set of heads.
pub open spec fn numbered(outs: Seq<Output>) -> Seq<Output> {
    Seq::new(outs.len(), |i: int| Output { index: i as usize, ..outs[i] })
}

impl Boot {
    /// The display once it is on, and the extent of all outputs. Each output gets a
    /// workspace of its own. `soft` asks for a cursor composited in software.
    pub fn finish(self, soft: bool, bound: &mut Vec<usize>) -> (r: (Display, (u32, u32)))
        requires
            self.wf(),
            self.outs@.len() > 0,
        ensures
            ({
                let outs = numbered(self.outs@);
                let theme = theme_of_first(self.outs@);
                &&& r.0.outputs@ == (if soft { each(outs, benched_head()) } else { outs })
                &&& r.0 == (Display {
                    outputs: r.0.outputs,
                    sw_image: theme,
                    sw_hot: match theme {
                        Some(img) => img.hot,
                        None => (0, 0),
                    },
                    sw_hidden: false,
                    sw: soft,
                    sw_gen: 1,
                    dpms_off: false,
                })
                &&& (r.1).0 == farthest(outs, right_edge(), 0, outs.len())
                &&& (r.1).1 == farthest(outs, bottom_edge(), 0, outs.len())
            }),
            final(bound)@ == boot_bound(old(bound)@, self.outs@.len()),
    {
        let mut outs: Vec<Output> = self.outs;
        let n: usize = outs.len();
        number_heads(&mut outs);
        assert(outs@ =~= numbered(self.outs@));
        bind_workspaces(bound, n);
        proof {
            assert forall|i: int| 0 <= i < outs@.len() implies (#[trigger] outs@[i]).width <= i32::MAX
                && outs@[i].height <= i32::MAX by {
                assert(self.outs@[i].width <= i32::MAX);
            }
            reveal(in_row);
            assert(self.outs@[0].pos == (span(self.outs@, 0) as i32, 0i32));
            extent_positive(outs@, outs@.len());
        }
        let (w, h): (i32, i32) = union_extent(&outs, 0);
        let theme: Option<CursorImage> = outs[0].cursor.theme;
        let sw_hot: (i32, i32) = match theme {
            Some(img) => img.hot,
            None => (0, 0),
        };
        let mut d: Display = Display {
            outputs: outs,
            sw_image: theme,
            sw_hot,
            sw_hidden: false,
            sw: false,
            sw_gen: 1,
            dpms_off: false,
        };
        if soft {
            d.set_software_cursor(true);
        }
        (d, (w as u32, h as u32))
    }
}

/// Every card gets its turn: cards are opened one by one in their order, and the
/// session goes headless only when none is left.
pub proof fn every_card_gets_its_turn(b: BootV, reply: Reply)
    requires
        answers(b.phase, reply),
    ensures
        ({
            let (c, t) = boot_step(b, reply);
            &&& c.cards == b.cards
            &&& t is Headless ==> b.next >= b.cards.len()
            &&& if t is Open { t == ThenV::Open(b.next) && c.next == b.next + 1 } else { c.next == b.next }
        }),
{
}

/// A display that is on has a head.
pub proof fn lit_displays_have_heads(b: BootV, reply: Reply)
    requires
        answers(b.phase, reply),
    ensures
        boot_step(b, reply).1 is Lit ==> boot_step(b, reply).0.outs.len() > 0,
{
}

proof fn next_fast_is_later(cfg: Seq<OutputConfig>, outs: Seq<Output>, k: nat)
    ensures
        next_fast(cfg, outs, k) matches Some(j) ==> k <= j < outs.len() && too_fast(cfg, outs[j as int]),
    decreases outs.len() - k,
{
    if k < outs.len() && !too_fast(cfg, outs[k as int]) {
        next_fast_is_later(cfg, outs, k + 1);
    }
}

/// A head is left alone only when it is slow enough or has no slower mode.
pub proof fn heads_step_until_they_fit(b: BootV, reply: Reply)
    requires
        b.phase is Stepping,
        b.slot < b.outs.len(),
        !asked_for(b.cfg, b.outs[b.slot as int].name@),
        answers(b.phase, reply),
    ensures
        ({
            let (c, t) = boot_step(b, reply);
            t == ThenV::StepDown(b.slot) || reply is Lowest || hz(c.outs[b.slot as int]) <= 144
        }),
{
    match reply {
        Reply::Stepped(v) => {
            let outs = b.outs.update(b.slot as int, Output { vrefresh: Some(v), ..b.outs[b.slot as int] });
            next_fast_is_later(b.cfg, outs, b.slot);
        },
        _ => {},
    }
}

/// How far a bring-up is from its end: the cards left, the phases left on this card,
/// and the rounds left in this phase.
pub open spec fn phases_left(phase: Phase) -> nat {
    match phase {
        Phase::Opening => 4,
        Phase::Making => 3,
        Phase::Stepping => 2,
        Phase::Committing => 1,
        Phase::Over => 0,
    }
}

pub open spec fn rounds_left(b: BootV) -> nat {
    match b.phase {
        Phase::Making => (b.conns.len() - b.at) as nat,
        Phase::Stepping => (b.outs.len() - b.slot) as nat,
        Phase::Committing => b.outs.len(),
        _ => 0,
    }
}

pub open spec fn rate_left(b: BootV) -> nat {
    if b.phase is Stepping {
        hz(b.outs[b.slot as int]) as nat
    } else {
        0
    }
}

/// A bring-up ends, whatever the card says, as long as each step down lowers the
/// refresh: every reply takes it closer to the end.
pub proof fn bring_up_ends(b: BootV, reply: Reply)
    requires
        answers(b.phase, reply),
        b.next <= b.cards.len(),
        b.at <= b.conns.len(),
        b.phase is Stepping ==> b.slot < b.outs.len(),
        reply matches Reply::Stepped(v) ==> v < hz(b.outs[b.slot as int]),
    ensures
        ({
            let c = boot_step(b, reply).0;
            decreases_to!(b.cards.len() - b.next, phases_left(b.phase), rounds_left(b), rate_left(b)
                => c.cards.len() - c.next, phases_left(c.phase), rounds_left(c), rate_left(c))
        }),
{
    match reply {
        Reply::Stepped(v) => {
            let outs = b.outs.update(b.slot as int, Output { vrefresh: Some(v), ..b.outs[b.slot as int] });
            next_fast_is_later(b.cfg, outs, b.slot);
        },
        Reply::Lowest => {
            next_fast_is_later(b.cfg, b.outs, b.slot + 1);
        },
        _ => {},
    }
}

} // verus!
