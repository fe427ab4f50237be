//! When a head renders, how it flips, and what becomes of the presentation
//! feedbacks that ride the frame.
use crate::output::{Dir, Output};
use crate::text::same_text;
use vstd::prelude::*;

verus! {

/// Timings of a display mode.
#[derive(Clone, Copy, Debug)]
pub struct ModeTiming {
    pub htotal: u16,
    pub vtotal: u16,
    /// pixel clock in kHz
    pub clock: u32,
}

pub open spec fn clock_of(m: ModeTiming) -> int {
    if m.clock == 0 { 1 } else { m.clock as int }
}

/// Nanoseconds per frame, as feedback reports them.
pub open spec fn refresh_spec(m: ModeTiming) -> u32 {
    ((m.htotal * m.vtotal * 1_000_000) / clock_of(m)) as u32
}

proof fn pixels_bounded(h: u16, v: u16)
    ensures
        0 <= h * v <= 0xffff * 0xffff,
{
    assert(0 <= h * v <= 0xffff * 0xffff) by (nonlinear_arith)
        requires
            0 <= h <= 0xffff,
            0 <= v <= 0xffff,
    ;
}

pub fn refresh_ns(m: ModeTiming) -> (r: u32)
    ensures
        r == refresh_spec(m),
{
    proof {
        pixels_bounded(m.htotal, m.vtotal);
    }
    let clock: u64 = if m.clock == 0 { 1 } else { m.clock as u64 };
    let px: u64 = m.htotal as u64 * m.vtotal as u64;
    (px * 1_000_000 / clock) as u32
}

/// The frame period the animation clock aims with.
pub open spec fn period_spec(m: ModeTiming) -> int {
    (m.htotal * m.vtotal * 1_000_000_000) / (clock_of(m) * 1000)
}

/// The moment this frame will be on glass: one period past the last flip, or
/// now when no flip happened, no mode is set, or refresh is variable.
pub fn frame_target(sec: u32, usec: u32, mode: Option<ModeTiming>, vrr: bool, now: u64) -> (r: u64)
    ensures
        ({
            let flip = sec * 1_000_000_000 + usec * 1000;
            let period = match mode {
                Some(m) => period_spec(m),
                None => 0,
            };
            r == (if flip == 0 || period == 0 || vrr { now as int } else { flip + period })
        }),
{
    let period: u64 = match mode {
        Some(m) => {
            proof {
                pixels_bounded(m.htotal, m.vtotal);
            }
            let clock: u64 = if m.clock == 0 { 1 } else { m.clock as u64 };
            let px: u64 = m.htotal as u64 * m.vtotal as u64;
            let total: u64 = px * 1_000_000_000;
            let per: u64 = clock * 1000;
            proof {
                assert(total / per <= total) by (nonlinear_arith)
                    requires
                        per >= 1,
                        total >= 0,
                ;
            }
            total / per
        },
        None => 0,
    };
    let flip: u64 = sec as u64 * 1_000_000_000 + usec as u64 * 1000;
    if flip == 0 || period == 0 || vrr {
        now
    } else {
        flip + period
    }
}

pub const FLAG_VSYNC: u32 = 1;

pub const FLAG_HW_CLOCK: u32 = 2;

pub const FLAG_HW_COMPLETION: u32 = 4;

/// A completed flip's timestamp and counters.
#[derive(Clone, Copy, Debug)]
pub struct FlipDone {
    pub sec: u32,
    pub usec: u32,
    pub seq: u64,
}

/// What one feedback is told when its frame reached glass.
#[derive(Clone, Copy, Debug)]
pub struct Presented {
    pub feedback: u64,
    pub sec: u32,
    pub nsec: u32,
    pub refresh: u32,
    pub seq: u64,
    pub flags: u32,
}

/// What the frame loop of one head keeps to itself. Which buffer is on glass, whether a
/// flip is on its way, whether the head is paused and whether it animates stand in the
/// head, where device events reach them too.
pub struct Presenter {
    /// content changed since the last render
    pub dirty: bool,
    /// a buffer was never rendered to yet
    pub undefined: (bool, bool),
    /// variable refresh is in effect
    pub vrr: bool,
    pub mode: Option<ModeTiming>,
    /// feedbacks claimed while composing
    pub latched: Vec<u64>,
    /// feedbacks riding the queued flip
    pub inflight: Vec<u64>,
    pub inflight_vsync: bool,
}

#[derive(Clone, Copy, Debug, PartialEq, Eq, Structural)]
pub enum Wake {
    Idle,
    /// compose into this buffer
    Render { back: usize },
}

/// How a rendered frame goes to the kernel.
#[derive(Clone, Copy, Debug, PartialEq, Eq, Structural)]
pub enum FlipMode {
    Sync,
    /// tears: the render has to be finished first, and a refusal falls back to a
    /// synchronous flip
    Async,
}

/// What the kernel said to a flip.
#[derive(Clone, Copy, Debug, PartialEq, Eq, Structural)]
pub enum FlipReply {
    Queued,
    NotPresented,
    LostMaster,
    Failed,
}

impl Presenter {
    /// No flip is on its way any more that feedbacks were waiting for.
    pub open spec fn completes(self, head: Output) -> bool {
        !head.flip_pending && self.inflight@.len() > 0
    }

    /// The period reported to feedbacks: none under variable refresh.
    pub open spec fn reported_refresh(self) -> u32 {
        if self.vrr {
            0
        } else {
            match self.mode {
                Some(m) => refresh_spec(m),
                None => 0,
            }
        }
    }

    pub open spec fn reported_flags(self) -> u32 {
        if self.inflight_vsync { 7 } else { 6 }
    }

    pub open spec fn told(self, head: Output, done: FlipDone) -> Seq<Presented> {
        if self.completes(head) {
            Seq::new(
                self.inflight@.len(),
                |i: int|
                    Presented {
                        feedback: self.inflight@[i],
                        sec: done.sec,
                        nsec: (done.usec * 1000) as u32,
                        refresh: self.reported_refresh(),
                        seq: done.seq,
                        flags: self.reported_flags(),
                    },
            )
        } else {
            Seq::empty()
        }
    }

    /// Damage or a completed flip woke the loop: feedbacks of a completed flip
    /// are told, and a frame is due when there is something new to show and the
    /// pipe is free.
    pub fn wake(&mut self, head: &Output, damage: bool, done: FlipDone) -> (r: (Wake, Vec<Presented>))
        requires
            head.front <= 1,
            done.usec * 1000 <= u32::MAX,
        ensures
            r.1@ == old(self).told(*head, done),
            final(self).inflight@ == (if old(self).completes(*head) { Seq::empty() } else { old(self).inflight@ }),
            ({
                let dirty = old(self).dirty || damage || head.anim_pending;
                let free = !head.flip_pending && !head.paused;
                &&& r.0 == (if dirty && free {
                    Wake::Render { back: (1 - head.front) as usize }
                } else {
                    Wake::Idle
                })
                &&& *final(self) == (Presenter {
                    dirty: dirty && !free,
                    inflight: final(self).inflight,
                    ..*old(self)
                })
            }),
    {
        let mut told: Vec<Presented> = Vec::new();
        if !head.flip_pending && self.inflight.len() > 0 {
            let refresh: u32 = if self.vrr {
                0
            } else {
                match self.mode {
                    Some(m) => refresh_ns(m),
                    None => 0,
                }
            };
            let flags: u32 = if self.inflight_vsync {
                FLAG_HW_CLOCK + FLAG_HW_COMPLETION + FLAG_VSYNC
            } else {
                FLAG_HW_CLOCK + FLAG_HW_COMPLETION
            };
            for i in 0..self.inflight.len()
                invariant
                    *self == *old(self),
                    self.completes(*head),
                    done.usec * 1000 <= u32::MAX,
                    refresh == self.reported_refresh(),
                    flags == self.reported_flags(),
                    told@ == self.told(*head, done).take(i as int),
            {
                told.push(
                    Presented {
                        feedback: self.inflight[i],
                        sec: done.sec,
                        nsec: done.usec * 1000,
                        refresh,
                        seq: done.seq,
                        flags,
                    },
                );
                assert(told@ =~= self.told(*head, done).take(i + 1));
            }
            assert(self.told(*head, done).take(self.inflight@.len() as int) =~= self.told(*head, done));
            self.inflight = Vec::new();
        }
        let dirty: bool = self.dirty || damage || head.anim_pending;
        if !dirty || head.flip_pending || head.paused {
            self.dirty = dirty;
            return (Wake::Idle, told);
        }
        self.dirty = false;
        (Wake::Render { back: 1 - head.front }, told)
    }

    /// A frame was rendered into `back`: its contents are defined from here on,
    /// the refresh policy is re-read, and the flip is synchronous unless tearing
    /// is wanted and no refresh change has to ride along.
    pub fn rendered(&mut self, back: usize, vrr_wanted: bool, tearing: bool, vrr_dirty: bool) -> (r: FlipMode)
        requires
            back <= 1,
        ensures
            r == (if tearing && !vrr_dirty { FlipMode::Async } else { FlipMode::Sync }),
            *final(self) == (Presenter {
                undefined: if back == 0 {
                    (false, old(self).undefined.1)
                } else {
                    (old(self).undefined.0, false)
                },
                vrr: vrr_wanted,
                inflight_vsync: true,
                ..*old(self)
            }),
    {
        if back == 0 {
            self.undefined = (false, self.undefined.1);
        } else {
            self.undefined = (self.undefined.0, false);
        }
        self.vrr = vrr_wanted;
        self.inflight_vsync = true;
        if tearing && !vrr_dirty {
            FlipMode::Async
        } else {
            FlipMode::Sync
        }
    }

    /// An asynchronous flip was taken by the kernel: the frame is not vsynced.
    pub fn tore(&mut self)
        ensures
            *final(self) == (Presenter { inflight_vsync: false, ..*old(self) }),
    {
        self.inflight_vsync = false;
    }

    /// The kernel answered the flip of `back`. Returns the feedbacks whose
    /// frames never present.
    pub fn flipped(&mut self, head: &mut Output, back: usize, reply: FlipReply) -> (discarded: Vec<u64>)
        ensures
            *final(head) == flipped_head(*old(head), back, reply),
            reply is Queued ==> {
                &&& discarded@.len() == 0
                &&& final(self).inflight@ == old(self).inflight@ + old(self).latched@
                &&& final(self).latched@.len() == 0
                &&& *final(self) == (Presenter {
                    inflight: final(self).inflight,
                    latched: final(self).latched,
                    ..*old(self)
                })
            },
            reply is NotPresented || reply is Failed ==> {
                &&& discarded@.len() == 0
                &&& *final(self) == (Presenter { dirty: true, ..*old(self) })
            },
            reply is LostMaster ==> {
                &&& discarded@ == old(self).latched@ + old(self).inflight@
                &&& final(self).inflight@.len() == 0
                &&& final(self).latched@.len() == 0
                &&& *final(self) == (Presenter {
                    dirty: true,
                    inflight: final(self).inflight,
                    latched: final(self).latched,
                    ..*old(self)
                })
            },
    {
        let mut discarded: Vec<u64> = Vec::new();
        match reply {
            FlipReply::Queued => {
                head.front = back;
                head.flip_pending = true;
                self.inflight.append(&mut self.latched);
            },
            FlipReply::NotPresented => {
                self.dirty = true;
            },
            FlipReply::LostMaster => {
                discarded.append(&mut self.latched);
                discarded.append(&mut self.inflight);
                head.paused = true;
                self.dirty = true;
            },
            FlipReply::Failed => {
                self.dirty = true;
            },
        }
        discarded
    }
}

/// A head after the kernel answered its flip of `back`: a queued flip puts the buffer on
/// glass and is waited for, a lost card pauses the head.
pub open spec fn flipped_head(head: Output, back: usize, reply: FlipReply) -> Output {
    match reply {
        FlipReply::Queued => Output { front: back, flip_pending: true, ..head },
        FlipReply::LostMaster => Output { paused: true, ..head },
        _ => head,
    }
}

/// A feedback is neither lost nor told twice by a flip: what was pending is
/// pending afterwards or was discarded, and nothing else is.
pub proof fn feedbacks_are_conserved(latched: Seq<u64>, inflight: Seq<u64>, reply: FlipReply)
    ensures
        (reply is Queued ==> (inflight + latched).to_multiset() == latched.to_multiset().add(
            inflight.to_multiset(),
        )),
        (reply is LostMaster ==> (latched + inflight).to_multiset() == latched.to_multiset().add(
            inflight.to_multiset(),
        )),
{
    vstd::seq_lib::lemma_multiset_commutative(latched, inflight);
    vstd::seq_lib::lemma_multiset_commutative(inflight, latched);
    assert(inflight.to_multiset().add(latched.to_multiset()) =~= latched.to_multiset().add(inflight.to_multiset()));
}

/// A frame left the gpu. Parked buffers go once no head has a frame in flight
/// that might sample them; returns the new count and whether they go now.
pub fn frame_done(in_flight: u32) -> (r: (u32, bool))
    ensures
        r.0 == (if in_flight == 0 { 0 } else { in_flight - 1 }),
        r.1 == (in_flight <= 1),
{
    let left: u32 = in_flight.saturating_sub(1);
    (left, left == 0)
}

/// Variable refresh as configured for an output.
#[derive(Clone, Copy, Debug, PartialEq, Eq, Structural)]
pub enum Vrr {
    Off,
    /// follows a fullscreen window
    Automatic,
    Always,
}

/// One output block of the configuration.
pub struct OutputConfig {
    pub name: String,
    pub vrr: Vrr,
    pub allow_tearing: bool,
    /// width, height and refresh asked for
    pub mode: Option<(u32, u32, Option<u32>)>,
}

pub open spec fn config_named(name: Seq<char>) -> spec_fn(OutputConfig) -> bool {
    |o: OutputConfig| o.name@ == name
}

fn find_config(cfg: &Vec<OutputConfig>, name: &str) -> (r: Option<usize>)
    ensures
        match r {
            Some(k) => crate::output::first_slot(cfg@, config_named(name@)) == Some(k as int) && k < cfg@.len(),
            None => crate::output::first_slot(cfg@, config_named(name@)) is None,
        },
{
    for i in 0..cfg.len()
        invariant
            forall|j: int| 0 <= j < i ==> !config_named(name@)(#[trigger] cfg@[j]),
    {
        if same_text(cfg[i].name.as_str(), name) {
            proof {
                crate::output::first_slot_found(cfg@, config_named(name@), i as int);
            }
            return Some(i);
        }
    }
    proof {
        crate::output::first_slot_absent(cfg@, config_named(name@));
    }
    None
}

/// The mode the configuration asks for on this output.
pub fn preferred_mode(cfg: &Vec<OutputConfig>, name: &str) -> (r: Option<(u32, u32, Option<u32>)>)
    ensures
        r == match crate::output::first_slot(cfg@, config_named(name@)) {
            Some(k) => cfg@[k].mode,
            None => None,
        },
{
    match find_config(cfg, name) {
        Some(k) => cfg[k].mode,
        None => None,
    }
}

/// The refresh policy configured for this output; off without a block.
pub open spec fn vrr_mode(cfg: Seq<OutputConfig>, name: Seq<char>) -> Vrr {
    match crate::output::first_slot(cfg, config_named(name)) {
        Some(k) => cfg[k].vrr,
        None => Vrr::Off,
    }
}

/// Per-output vrr policy. `warned` remembers that an incapable panel was
/// complained about; the second result asks for that complaint, once.
pub fn vrr_wanted(
    cfg: &Vec<OutputConfig>,
    name: &str,
    capable: bool,
    fullscreen: bool,
    warned: &mut bool,
) -> (r: (bool, bool))
    ensures
        ({
            let mode = vrr_mode(cfg@, name@);
            let asked = mode != Vrr::Off;
            &&& r.0 == (asked && capable && (mode == Vrr::Always || fullscreen))
            &&& r.1 == (asked && !capable && !*old(warned))
            &&& *final(warned) == (*old(warned) || (asked && !capable))
        }),
{
    let mode: Vrr = match find_config(cfg, name) {
        Some(k) => cfg[k].vrr,
        None => Vrr::Off,
    };
    match mode {
        Vrr::Off => (false, false),
        Vrr::Always => {
            if !capable {
                let first: bool = !*warned;
                *warned = true;
                return (false, first);
            }
            (true, false)
        },
        Vrr::Automatic => {
            if !capable {
                let first: bool = !*warned;
                *warned = true;
                return (false, first);
            }
            (fullscreen, false)
        },
    }
}

/// A fullscreen window's say on tearing.
#[derive(Clone, Copy, Debug)]
pub struct TearingHint {
    /// the client asked for async presentation
    pub client: bool,
    /// a window rule did
    pub rule: bool,
}

/// Tears only when the configuration allows it, the device can, no cursor
/// change would be lost, and the fullscreen surface asked for it.
pub fn tearing_wanted(
    cfg: &Vec<OutputConfig>,
    name: &str,
    async_flip: bool,
    cursor_changed: bool,
    fullscreen: Option<TearingHint>,
) -> (r: bool)
    ensures
        r == ({
            &&& crate::output::first_slot(cfg@, config_named(name@)) matches Some(k) && cfg@[k].allow_tearing
            &&& async_flip
            &&& !cursor_changed
            &&& fullscreen matches Some(h) && (h.client || h.rule)
        }),
{
    let allowed: bool = match find_config(cfg, name) {
        Some(k) => cfg[k].allow_tearing,
        None => false,
    };
    if !async_flip || !allowed {
        return false;
    }
    if cursor_changed {
        return false;
    }
    match fullscreen {
        Some(h) => h.client || h.rule,
        None => false,
    }
}

/// Transition styles, without their amounts.
#[derive(Clone, Copy, Debug, PartialEq, Eq, Structural)]
pub enum Style {
    Fade,
    Popin,
    Slide,
    SlideVert,
    SlideFade,
    SlideFadeVert,
}

/// What becomes of a whole batch while its owner opens or closes.
#[derive(Clone, Copy, Debug, PartialEq, Eq, Structural)]
pub enum Effect {
    /// nothing
    Still,
    /// grows from the fraction that the style carries, and fades in
    PopIn,
    /// only its opacity changes
    Fade,
    /// slides from or to an edge of the output
    Slide,
    /// shrinks towards four fifths, and fades out
    Shrink,
}

/// How a window or a layer surface opens: popin scales and fades, fade fades, slide slides,
/// and no other style does anything.
pub fn opening_effect(s: Style) -> (e: Effect)
    ensures
        e == (match s {
            Style::Popin => Effect::PopIn,
            Style::Fade => Effect::Fade,
            Style::Slide => Effect::Slide,
            _ => Effect::Still,
        }),
{
    match s {
        Style::Popin => Effect::PopIn,
        Style::Fade => Effect::Fade,
        Style::Slide => Effect::Slide,
        _ => Effect::Still,
    }
}

/// How a window or a layer surface closes: fade fades, slide slides, and every other style
/// shrinks and fades.
pub fn closing_effect(s: Style) -> (e: Effect)
    ensures
        e == (match s {
            Style::Fade => Effect::Fade,
            Style::Slide => Effect::Slide,
            _ => Effect::Shrink,
        }),
{
    match s {
        Style::Fade => Effect::Fade,
        Style::Slide => Effect::Slide,
        _ => Effect::Shrink,
    }
}

/// What becomes of a window's batch: one that opens does so in its style, but not in
/// fullscreen.
pub fn window_effect(opening: Option<Style>, fullscreen: bool) -> (e: Effect)
    ensures
        e == (match opening {
            Some(s) if !fullscreen => match s {
                Style::Popin => Effect::PopIn,
                Style::Fade => Effect::Fade,
                Style::Slide => Effect::Slide,
                _ => Effect::Still,
            },
            _ => Effect::Still,
        }),
{
    match opening {
        None => Effect::Still,
        Some(s) => if fullscreen {
            Effect::Still
        } else {
            opening_effect(s)
        },
    }
}

/// The edge a layer surface slides from: the one its style names, else its own.
pub fn layer_slide(style: Option<Dir>, own: Option<Dir>) -> (r: Option<Dir>)
    ensures
        r == (if style is Some { style } else { own }),
{
    match style {
        Some(d) => Some(d),
        None => own,
    }
}

/// How far scenes travel in a workspace switch.
#[derive(Clone, Copy, Debug, PartialEq, Eq, Structural)]
pub enum Travel {
    /// pure crossfade
    Nothing,
    /// the fraction that the style carries
    Fraction,
    Whole,
}

/// An in-flight workspace switch, without its animation curve.
#[derive(Clone, Copy, Debug, PartialEq, Eq, Structural)]
pub struct WsSwitch {
    pub from_ws: usize,
    pub vert: bool,
    pub travel: Travel,
    pub fade: bool,
    /// the target has the higher index
    pub ahead: bool,
}

/// The shape of a workspace switch animation.
pub open spec fn ws_switch_spec(style: Style, axis_vertical: bool, from: usize, to: usize) -> WsSwitch {
    WsSwitch {
        from_ws: from,
        vert: style == Style::SlideVert || style == Style::SlideFadeVert || axis_vertical,
        travel: match style {
            Style::Fade => Travel::Nothing,
            Style::SlideFade | Style::SlideFadeVert => Travel::Fraction,
            _ => Travel::Whole,
        },
        fade: style == Style::Fade || style == Style::SlideFade || style == Style::SlideFadeVert,
        ahead: to > from,
    }
}

/// An output switches workspaces: it animates in this style, or not at all where the
/// animation is turned off. A switch that still ran is replaced.
pub fn start_ws_switch(out: &mut Output, style: Option<Style>, axis_vertical: bool, from: usize, to: usize)
    ensures
        *final(out) == (Output {
            ws_switch: match style {
                Some(s) => Some(ws_switch_spec(s, axis_vertical, from, to)),
                None => None,
            },
            ..*old(out)
        }),
{
    let style: Style = match style {
        None => {
            out.ws_switch = None;
            return;
        },
        Some(s) => s,
    };
    let vert: bool = match style {
        Style::SlideVert => true,
        Style::SlideFadeVert => true,
        _ => axis_vertical,
    };
    let (travel, fade) = match style {
        Style::Fade => (Travel::Nothing, true),
        Style::SlideFade => (Travel::Fraction, true),
        Style::SlideFadeVert => (Travel::Fraction, true),
        _ => (Travel::Whole, false),
    };
    out.ws_switch = Some(WsSwitch { from_ws: from, vert, travel, fade, ahead: to > from });
}

} // verus!
