//! Scanout memory: which modifiers are tried, how a tile4 buffer is laid out, and
//! how a head gets its two buffers.
use crate::output::cursor::{CursorPlane, HeadCursor};
use crate::output::Output;
use crate::rect::Rect;
use vstd::prelude::*;

verus! {

/// The 4-tiled intel modifier: vendor one, code nine; single plane, without
/// compression metadata.
pub const TILE4: u64 = 0x0100_0000_0000_0009;

/// Whether the display side takes this modifier: an empty list takes any.
pub open spec fn kms_takes(kms: Seq<u64>) -> spec_fn((u64, u32)) -> bool {
    |m: (u64, u32)| kms.len() == 0 || kms.contains(m.0)
}

fn has_modifier(kms: &Vec<u64>, m: u64) -> (r: bool)
    ensures
        r == kms@.contains(m),
{
    for i in 0..kms.len()
        invariant
            forall|j: int| 0 <= j < i ==> kms@[j] != m,
    {
        if kms[i] == m {
            assert(kms@[i as int] == m);
            return true;
        }
    }
    false
}

/// Modifiers both the renderer and the display side know, in renderer order.
pub fn usable_modifiers(vk: &Vec<(u64, u32)>, kms: &Vec<u64>) -> (r: Vec<(u64, u32)>)
    ensures
        r@ == vk@.filter(kms_takes(kms@)),
{
    let mut out: Vec<(u64, u32)> = Vec::new();
    proof {
        reveal(Seq::filter);
        assert(vk@.take(0).filter(kms_takes(kms@)) =~= Seq::<(u64, u32)>::empty());
    }
    for i in 0..vk.len()
        invariant
            out@ == vk@.take(i as int).filter(kms_takes(kms@)),
    {
        proof {
            reveal(Seq::filter);
            assert(vk@.take(i + 1).drop_last() =~= vk@.take(i as int));
        }
        if kms.len() == 0 || has_modifier(kms, vk[i].0) {
            out.push(vk[i]);
        }
    }
    assert(vk@.take(vk@.len() as int) =~= vk@);
    out
}

pub open spec fn other_than(bad: u64) -> spec_fn((u64, u32)) -> bool {
    |m: (u64, u32)| m.0 != bad
}

/// The display side refused a buffer with this modifier: it is not tried again.
pub fn refuse(usable: &mut Vec<(u64, u32)>, bad: u64)
    ensures
        final(usable)@ == old(usable)@.filter(other_than(bad)),
{
    let ghost all = usable@;
    let mut out: Vec<(u64, u32)> = Vec::new();
    proof {
        reveal(Seq::filter);
        assert(all.take(0).filter(other_than(bad)) =~= Seq::<(u64, u32)>::empty());
    }
    let n: usize = usable.len();
    for i in 0..n
        invariant
            n == all.len(),
            usable@ == all,
            out@ == all.take(i as int).filter(other_than(bad)),
    {
        proof {
            reveal(Seq::filter);
            assert(all.take(i + 1).drop_last() =~= all.take(i as int));
        }
        if usable[i].0 != bad {
            out.push(usable[i]);
        }
    }
    assert(all.take(all.len() as int) =~= all);
    *usable = out;
}

/// Refusing a modifier that was tried always shortens the list, so the
/// allocator runs out of attempts.
pub proof fn refusal_makes_progress(usable: Seq<(u64, u32)>, k: int)
    requires
        0 <= k < usable.len(),
    ensures
        usable.filter(other_than(usable[k].0)).len() < usable.len(),
    decreases usable.len(),
{
    let bad = usable[k].0;
    reveal(Seq::filter);
    usable.drop_last().lemma_filter_len(other_than(bad));
    if k < usable.len() - 1 {
        assert(usable.drop_last()[k] == usable[k]);
        refusal_makes_progress(usable.drop_last(), k);
    }
}

#[derive(Clone, Copy, Debug)]
pub struct TiledLayout {
    pub pitch: u32,
    pub rows: u32,
    pub size: u64,
}

/// The least multiple of `unit` that is at least `v`.
pub open spec fn round_up(v: int, unit: int) -> int {
    ((v + unit - 1) / unit) * unit
}

/// The layout of a tile4 buffer: tiles are 128 bytes by 32 rows, the whole is a
/// number of pages (`page` is a power of two). `None` when the plane does not
/// take the modifier.
pub fn tiled_layout(kms: &Vec<u64>, width: u32, height: u32, page: u64) -> (r: Option<TiledLayout>)
    requires
        width * 4 + 127 <= u32::MAX,
        height + 31 <= u32::MAX,
        page > 0,
        round_up(width * 4, 128) * round_up(height as int, 32) + page <= u64::MAX,
    ensures
        r is Some <==> kms@.len() == 0 || kms@.contains(TILE4),
        r matches Some(l) ==> {
            &&& l.pitch == round_up(width * 4, 128)
            &&& l.rows == round_up(height as int, 32)
            &&& l.size == ((l.pitch * l.rows + page - 1) as u64) & !((page - 1) as u64)
        },
{
    if kms.len() > 0 && !has_modifier(kms, TILE4) {
        return None;
    }
    let a: u32 = width * 4 + 127;
    let b: u32 = height + 31;
    let pitch: u32 = a & !127;
    let rows: u32 = b & !31;
    proof {
        assert(a & !127u32 == (a / 128) * 128) by (bit_vector);
        assert(b & !31u32 == (b / 32) * 32) by (bit_vector);
        assert(pitch == round_up(width * 4, 128));
        assert(rows == round_up(height as int, 32));
        assert(pitch as u64 * rows as u64 == round_up(width * 4, 128) * round_up(height as int, 32));
    }
    let bytes: u64 = pitch as u64 * rows as u64;
    let size: u64 = (bytes + page - 1) & !(page - 1);
    Some(TiledLayout { pitch, rows, size })
}

/// With 4 KiB or 64 KiB pages the size is the least whole number of pages that
/// holds the tiles.
pub proof fn tiled_size_is_whole_pages(bytes: u64, page: u64)
    requires
        page == 4096 || page == 65536,
        bytes + page - 1 <= u64::MAX,
    ensures
        ((bytes + page - 1) as u64) & !((page - 1) as u64) == round_up(bytes as int, page as int),
{
    let v = (bytes + page - 1) as u64;
    assert(v & !4095u64 == (v / 4096) * 4096) by (bit_vector);
    assert(v & !65535u64 == (v / 65536) * 65536) by (bit_vector);
}

/// Where a scanout buffer came from.
#[derive(Clone, Copy, Debug, PartialEq, Eq, Structural)]
pub enum Tier {
    /// the renderer allocated it with one of the usable modifiers
    Native,
    /// the display side allocated tile4
    Tiled,
    /// a linear dumb buffer
    Dumb,
}

/// What the making of a scanout buffer waits for.
#[derive(Clone, Copy, Debug, PartialEq, Eq, Structural)]
pub enum Stage {
    /// the renderer allocates with a usable modifier
    NativeBo,
    /// the display side takes the memory
    NativeHandle,
    /// the display side takes the layout
    NativeFb,
    NativeView,
    /// where video memory is
    Placement,
    TiledGem,
    TiledFb,
    TiledExport,
    TiledBo,
    TiledView,
    DumbGem,
    DumbFb,
    DumbExport,
    DumbBo,
    DumbView,
    Over,
}

/// How the step that was waited for ended.
pub enum Reply {
    Done,
    /// a buffer of that modifier
    Bo { modifier: u64 },
    /// the page size of video memory
    Placement { page: u64 },
    /// the framebuffer's id
    Fb { fb: u32 },
    Failed(String),
}

/// A reply, as a contract speaks of it.
pub ghost enum ReplyV {
    Done,
    Bo(u64),
    Placement(u64),
    Fb(u32),
    Failed(Seq<char>),
}

impl View for Reply {
    type V = ReplyV;

    open spec fn view(&self) -> ReplyV {
        match self {
            Reply::Done => ReplyV::Done,
            Reply::Bo { modifier } => ReplyV::Bo(*modifier),
            Reply::Placement { page } => ReplyV::Placement(*page),
            Reply::Fb { fb } => ReplyV::Fb(*fb),
            Reply::Failed(e) => ReplyV::Failed(e@),
        }
    }
}

/// What a failed attempt leaves behind.
#[derive(Clone, Copy, Debug, PartialEq, Eq, Structural)]
pub enum Release {
    Handle,
    Bo,
    Fb,
}

/// What to do next.
pub enum Then {
    /// carry out the stage
    Go(Stage),
    /// allocate that many bytes of video memory, with that pitch
    Gem { pitch: u32, size: u64 },
    Made(OutBuf),
    Failed(String),
}

/// What to do next, as a contract speaks of it.
pub ghost enum ThenV {
    Go(Stage),
    Gem(int, u64),
    Made(OutBuf),
    Failed(Seq<char>),
}

impl View for Then {
    type V = ThenV;

    open spec fn view(&self) -> ThenV {
        match self {
            Then::Go(s) => ThenV::Go(*s),
            Then::Gem { pitch, size } => ThenV::Gem(*pitch as int, *size),
            Then::Made(b) => ThenV::Made(*b),
            Then::Failed(e) => ThenV::Failed(e@),
        }
    }
}

/// A scanout buffer: where it came from, its framebuffer and its modifier.
#[derive(Clone, Copy, Debug, PartialEq, Eq, Structural)]
pub struct OutBuf {
    pub tier: Tier,
    pub fb: u32,
    pub modifier: u64,
}

/// A scanout buffer in the making.
pub struct BufBuild {
    pub width: u16,
    pub height: u16,
    /// modifiers that are still to be tried
    pub usable: Vec<(u64, u32)>,
    /// what the plane advertises
    pub kms: Vec<u64>,
    pub xe: bool,
    pub stage: Stage,
    /// modifier of the buffer that is tried
    pub modifier: u64,
    /// its framebuffer, once it has one
    pub fb: u32,
}

/// A scanout buffer in the making, as a contract speaks of it.
pub ghost struct BufV {
    pub width: u16,
    pub height: u16,
    pub usable: Seq<(u64, u32)>,
    pub kms: Seq<u64>,
    pub xe: bool,
    pub stage: Stage,
    pub modifier: u64,
    pub fb: u32,
}

impl View for BufBuild {
    type V = BufV;

    open spec fn view(&self) -> BufV {
        BufV {
            width: self.width,
            height: self.height,
            usable: self.usable@,
            kms: self.kms@,
            xe: self.xe,
            stage: self.stage,
            modifier: self.modifier,
            fb: self.fb,
        }
    }
}

/// The plane takes tile4.
pub open spec fn takes_tile4(kms: Seq<u64>) -> bool {
    kms.len() == 0 || kms.contains(TILE4)
}

/// What is tried with those modifiers left: native memory, then tile4 on the xe
/// driver, then dumb memory.
pub open spec fn try_from(usable: nat, xe: bool, kms: Seq<u64>) -> Stage {
    if usable > 0 {
        Stage::NativeBo
    } else if xe && takes_tile4(kms) {
        Stage::Placement
    } else {
        Stage::DumbGem
    }
}

/// The stage after one that went well.
pub open spec fn onward(s: Stage) -> Stage {
    match s {
        Stage::NativeBo => Stage::NativeHandle,
        Stage::NativeHandle => Stage::NativeFb,
        Stage::NativeFb => Stage::NativeView,
        Stage::Placement => Stage::TiledGem,
        Stage::TiledGem => Stage::TiledFb,
        Stage::TiledFb => Stage::TiledExport,
        Stage::TiledExport => Stage::TiledBo,
        Stage::TiledBo => Stage::TiledView,
        Stage::DumbGem => Stage::DumbFb,
        Stage::DumbFb => Stage::DumbExport,
        Stage::DumbExport => Stage::DumbBo,
        Stage::DumbBo => Stage::DumbView,
        Stage::NativeView | Stage::TiledView | Stage::DumbView | Stage::Over => Stage::Over,
    }
}

pub open spec fn is_tiled(s: Stage) -> bool {
    match s {
        Stage::Placement
        | Stage::TiledGem
        | Stage::TiledFb
        | Stage::TiledExport
        | Stage::TiledBo
        | Stage::TiledView => true,
        _ => false,
    }
}

/// The stage after one that failed, with those modifiers left: a refused layout tries
/// the next modifier, tiled memory falls back to dumb memory, else it is over.
pub open spec fn fallback(s: Stage, left: nat, xe: bool, kms: Seq<u64>) -> Stage {
    if s is NativeFb {
        try_from(left, xe, kms)
    } else if is_tiled(s) {
        Stage::DumbGem
    } else {
        Stage::Over
    }
}

/// What is released once a stage ended.
pub open spec fn released(s: Stage, ok: bool) -> Seq<Release> {
    match (s, ok) {
        (Stage::NativeFb, true) => seq![Release::Handle],
        (Stage::NativeFb, false) => seq![Release::Handle, Release::Bo],
        (Stage::TiledFb, false) => seq![Release::Handle],
        (Stage::TiledExport, true) => seq![Release::Handle],
        (Stage::TiledExport, false) => seq![Release::Fb, Release::Handle],
        (Stage::TiledBo, false) => seq![Release::Fb],
        _ => Seq::empty(),
    }
}

/// The words for what failed.
pub open spec fn complaint(s: Stage) -> Seq<char> {
    match s {
        Stage::NativeBo => "scanout bo: "@,
        Stage::NativeHandle => "prime import: "@,
        Stage::DumbGem => "create_dumb: "@,
        Stage::DumbFb => "dumb addfb2: "@,
        Stage::DumbExport => "prime export: "@,
        Stage::DumbBo => "import: "@,
        _ => "view: "@,
    }
}

fn complain(s: Stage) -> (r: &'static str)
    ensures
        r@ == complaint(s),
{
    match s {
        Stage::NativeBo => "scanout bo: ",
        Stage::NativeHandle => "prime import: ",
        Stage::DumbGem => "create_dumb: ",
        Stage::DumbFb => "dumb addfb2: ",
        Stage::DumbExport => "prime export: ",
        Stage::DumbBo => "import: ",
        _ => "view: ",
    }
}

pub open spec fn tier_of(s: Stage) -> Tier {
    match s {
        Stage::NativeView => Tier::Native,
        Stage::TiledView => Tier::Tiled,
        _ => Tier::Dumb,
    }
}

/// Whether a reply is one that a stage waits for.
pub open spec fn answers(s: Stage, r: ReplyV) -> bool {
    r is Failed || match s {
        Stage::NativeBo => r is Bo,
        Stage::Placement => r is Placement,
        Stage::NativeFb | Stage::TiledFb | Stage::DumbFb => r is Fb,
        _ => r is Done,
    }
}

/// The pages of video memory can be counted.
pub open spec fn pages_fit(b: BufV, r: ReplyV) -> bool {
    r matches ReplyV::Placement(page) ==> page > 0 && round_up(b.width * 4, 128) * round_up(b.height as int, 32) + page
        <= u64::MAX
}

/// The finished buffer: memory the display side allocated is tiled or linear.
pub open spec fn made(b: BufV) -> OutBuf {
    let tier = tier_of(b.stage);
    OutBuf {
        tier,
        fb: b.fb,
        modifier: match tier {
            Tier::Native => b.modifier,
            Tier::Tiled => TILE4,
            Tier::Dumb => 0,
        },
    }
}

/// A fresh start on a buffer.
pub open spec fn begun(width: u16, height: u16, vk: Seq<(u64, u32)>, kms: Seq<u64>, xe: bool) -> BufV {
    let usable = vk.filter(kms_takes(kms));
    BufV { width, height, usable, kms, xe, stage: try_from(usable.len(), xe, kms), modifier: 0, fb: 0 }
}

/// One step: the buffer in the making, what is released, in order, and what to do
/// next.
pub open spec fn stepped(b: BufV, reply: ReplyV) -> (BufV, Seq<Release>, ThenV) {
    let ok = !(reply is Failed);
    let left = if b.stage is NativeFb && !ok { b.usable.filter(other_than(b.modifier)) } else { b.usable };
    let stage = if ok { onward(b.stage) } else { fallback(b.stage, left.len(), b.xe, b.kms) };
    let after = BufV {
        usable: left,
        stage,
        modifier: match reply {
            ReplyV::Bo(m) => m,
            _ => b.modifier,
        },
        fb: match reply {
            ReplyV::Fb(fb) => fb,
            _ => b.fb,
        },
        ..b
    };
    let then = match reply {
        ReplyV::Failed(e) => if stage is Over {
            ThenV::Failed(complaint(b.stage) + e)
        } else {
            ThenV::Go(stage)
        },
        ReplyV::Placement(page) => {
            let pitch = round_up(b.width * 4, 128);
            let rows = round_up(b.height as int, 32);
            ThenV::Gem(pitch, ((pitch * rows + page - 1) as u64) & !((page - 1) as u64))
        },
        _ => if stage is Over {
            ThenV::Made(made(b))
        } else {
            ThenV::Go(stage)
        },
    };
    (after, released(b.stage, ok), then)
}

fn try_next(usable: usize, xe: bool, kms: &Vec<u64>) -> (r: Stage)
    ensures
        r == try_from(usable as nat, xe, kms@),
{
    if usable > 0 {
        Stage::NativeBo
    } else if xe && (kms.len() == 0 || has_modifier(kms, TILE4)) {
        Stage::Placement
    } else {
        Stage::DumbGem
    }
}

fn go_on(s: Stage) -> (r: Stage)
    ensures
        r == onward(s),
{
    match s {
        Stage::NativeBo => Stage::NativeHandle,
        Stage::NativeHandle => Stage::NativeFb,
        Stage::NativeFb => Stage::NativeView,
        Stage::Placement => Stage::TiledGem,
        Stage::TiledGem => Stage::TiledFb,
        Stage::TiledFb => Stage::TiledExport,
        Stage::TiledExport => Stage::TiledBo,
        Stage::TiledBo => Stage::TiledView,
        Stage::DumbGem => Stage::DumbFb,
        Stage::DumbFb => Stage::DumbExport,
        Stage::DumbExport => Stage::DumbBo,
        Stage::DumbBo => Stage::DumbView,
        Stage::NativeView | Stage::TiledView | Stage::DumbView | Stage::Over => Stage::Over,
    }
}

fn let_go(s: Stage, ok: bool) -> (r: Vec<Release>)
    ensures
        r@ == released(s, ok),
{
    let mut v: Vec<Release> = Vec::new();
    match (s, ok) {
        (Stage::NativeFb, true) => v.push(Release::Handle),
        (Stage::NativeFb, false) => {
            v.push(Release::Handle);
            v.push(Release::Bo);
        },
        (Stage::TiledFb, false) => v.push(Release::Handle),
        (Stage::TiledExport, true) => v.push(Release::Handle),
        (Stage::TiledExport, false) => {
            v.push(Release::Fb);
            v.push(Release::Handle);
        },
        (Stage::TiledBo, false) => v.push(Release::Fb),
        _ => {},
    }
    assert(v@ =~= released(s, ok));
    v
}

impl BufBuild {
    /// Starts a buffer; the result carries out `stage` first.
    pub fn new(width: u16, height: u16, vk: &Vec<(u64, u32)>, kms: Vec<u64>, xe: bool) -> (b: BufBuild)
        ensures
            b@ == begun(width, height, vk@, kms@, xe),
    {
        let usable: Vec<(u64, u32)> = usable_modifiers(vk, &kms);
        let stage: Stage = try_next(usable.len(), xe, &kms);
        BufBuild { width, height, usable, kms, xe, stage, modifier: 0, fb: 0 }
    }

    /// Takes how the stage ended. The first result is what to release now, in order;
    /// the second what to do next.
    pub fn step(&mut self, reply: Reply) -> (r: (Vec<Release>, Then))
        requires
            !(old(self).stage is Over),
            answers(old(self).stage, reply@),
            pages_fit(old(self)@, reply@),
        ensures
            (final(self)@, r.0@, r.1@) == stepped(old(self)@, reply@),
    {
        let s: Stage = self.stage;
        match reply {
            Reply::Failed(e) => self.failed(e),
            Reply::Placement { page } => {
                let (pitch, size): (u32, u64) = tile_sizes(self.width, self.height, page);
                let rel: Vec<Release> = let_go(s, true);
                self.stage = go_on(s);
                (rel, Then::Gem { pitch, size })
            },
            Reply::Bo { modifier } => {
                self.modifier = modifier;
                let rel: Vec<Release> = let_go(s, true);
                self.stage = go_on(s);
                (rel, Then::Go(self.stage))
            },
            Reply::Fb { fb } => {
                self.fb = fb;
                let rel: Vec<Release> = let_go(s, true);
                self.stage = go_on(s);
                (rel, Then::Go(self.stage))
            },
            Reply::Done => {
                let rel: Vec<Release> = let_go(s, true);
                self.stage = go_on(s);
                let then: Then = match s {
                    Stage::NativeView => Then::Made(OutBuf { tier: Tier::Native, fb: self.fb, modifier: self.modifier }),
                    Stage::TiledView => Then::Made(OutBuf { tier: Tier::Tiled, fb: self.fb, modifier: TILE4 }),
                    Stage::DumbView => Then::Made(OutBuf { tier: Tier::Dumb, fb: self.fb, modifier: 0 }),
                    _ => Then::Go(self.stage),
                };
                (rel, then)
            },
        }
    }

    fn failed(&mut self, e: String) -> (r: (Vec<Release>, Then))
        requires
            !(old(self).stage is Over),
        ensures
            (final(self)@, r.0@, r.1@) == stepped(old(self)@, ReplyV::Failed(e@)),
    {
        let s: Stage = self.stage;
        let rel: Vec<Release> = let_go(s, false);
        if s == Stage::NativeFb {
            refuse(&mut self.usable, self.modifier);
            self.stage = try_next(self.usable.len(), self.xe, &self.kms);
            return (rel, Then::Go(self.stage));
        }
        match s {
            Stage::Placement
            | Stage::TiledGem
            | Stage::TiledFb
            | Stage::TiledExport
            | Stage::TiledBo
            | Stage::TiledView => {
                self.stage = Stage::DumbGem;
                (rel, Then::Go(Stage::DumbGem))
            },
            _ => {
                self.stage = Stage::Over;
                let text: String = complain(s).to_owned().concat(e.as_str());
                (rel, Then::Failed(text))
            },
        }
    }
}

/// Pitch and size of a tile4 buffer of that size.
fn tile_sizes(width: u16, height: u16, page: u64) -> (r: (u32, u64))
    requires
        page > 0,
        round_up(width * 4, 128) * round_up(height as int, 32) + page <= u64::MAX,
    ensures
        r.0 == round_up(width * 4, 128),
        r.1 == ((round_up(width * 4, 128) * round_up(height as int, 32) + page - 1) as u64) & !((page - 1) as u64),
{
    let (w, h): (u32, u32) = (width as u32, height as u32);
    let any: Vec<u64> = Vec::new();
    match tiled_layout(&any, w, h, page) {
        Some(l) => (l.pitch, l.size),
        None => (0, 0),
    }
}

/// The tier a head is announced with. A renderer that picked tile4 itself reads
/// like memory the display side allocated.
pub fn tier_text(buf: OutBuf) -> (r: &'static str)
    ensures
        r@ == (if buf.tier is Dumb {
            "dumb-buffer import"@
        } else if buf.modifier == TILE4 {
            "kms tile4 import"@
        } else {
            "vulkan-native"@
        }),
{
    if buf.tier == Tier::Dumb {
        "dumb-buffer import"
    } else if buf.modifier == TILE4 {
        "kms tile4 import"
    } else {
        "vulkan-native"
    }
}

/// A connector with a pipe: its mode, and its cursor plane.
pub struct HeadPort {
    pub uid: u64,
    pub name: String,
    pub conn: u32,
    pub width: u16,
    pub height: u16,
    pub vrefresh: u32,
    pub connected: bool,
    pub plane: Option<CursorPlane>,
}

/// A head fresh on its port: nothing on glass, at the origin, the first buffer in
/// front.
pub open spec fn fresh_head(p: HeadPort, first: OutBuf, second: OutBuf) -> Output {
    Output {
        uid: p.uid,
        name: p.name,
        conn: p.conn,
        width: p.width as u32,
        height: p.height as u32,
        index: 0,
        global_name: 0,
        pos: (0, 0),
        ws: 0,
        usable: Rect { x1: 0, y1: 0, x2: 0, y2: 0 },
        vrefresh: Some(p.vrefresh),
        connected: p.connected,
        dumb: first.tier is Dumb,
        front: 0,
        fbs: (first.fb, second.fb),
        paused: false,
        flip_pending: false,
        anim_pending: false,
        ws_switch: None,
        cursor: HeadCursor {
            locked: false,
            client_hidden: false,
            theme: None,
            plane: p.plane,
            rearm: false,
            generation: 0,
            textured: false,
        },
    }
}

/// A head in the making: its two scanout buffers, one after the other.
pub struct HeadBuild {
    pub port: HeadPort,
    /// what the renderer can allocate
    pub vk: Vec<(u64, u32)>,
    pub first: Option<OutBuf>,
    pub build: BufBuild,
}

/// A head in the making, as a contract speaks of it.
pub ghost struct HeadV {
    pub port: HeadPort,
    pub vk: Seq<(u64, u32)>,
    pub first: Option<OutBuf>,
    pub build: BufV,
}

impl View for HeadBuild {
    type V = HeadV;

    open spec fn view(&self) -> HeadV {
        HeadV { port: self.port, vk: self.vk@, first: self.first, build: self.build@ }
    }
}

/// What to do next for a head.
pub enum HeadThen {
    /// what the buffer in the making asks for
    Buffer(Then),
    /// the head, and its scanout tier in words
    Ready(Output, &'static str),
    Failed(String),
}

/// One step of a head: the first buffer that is made starts the second, the second
/// completes the head, and a buffer that cannot be made fails it.
pub open spec fn head_stepped(h: HeadV, reply: ReplyV) -> HeadV {
    let (b, _, then) = stepped(h.build, reply);
    match (then, h.first) {
        (ThenV::Made(buf), None) => HeadV {
            first: Some(buf),
            build: begun(h.port.width, h.port.height, h.vk, h.build.kms, h.build.xe),
            ..h
        },
        _ => HeadV { build: b, ..h },
    }
}

/// What a head asks for after that step.
pub open spec fn head_asks(h: HeadV, reply: ReplyV, t: HeadThen) -> bool {
    match (stepped(h.build, reply).2, h.first) {
        (ThenV::Made(buf), None) => t matches HeadThen::Buffer(n) && n@ == ThenV::Go(head_stepped(h, reply).build.stage),
        (ThenV::Made(buf), Some(first)) => t matches HeadThen::Ready(o, words) && o == fresh_head(h.port, first, buf)
            && words@ == (if first.tier is Dumb {
            "dumb-buffer import"@
        } else if first.modifier == TILE4 {
            "kms tile4 import"@
        } else {
            "vulkan-native"@
        }),
        (ThenV::Failed(e), _) => t matches HeadThen::Failed(text) && text@ == e,
        (then, _) => t matches HeadThen::Buffer(n) && n@ == then,
    }
}

/// Starts a head on a port; the result carries out `build.stage` first.
pub fn init_output(port: HeadPort, vk: Vec<(u64, u32)>, kms: Vec<u64>, xe: bool) -> (h: HeadBuild)
    ensures
        h@ == (HeadV { port, vk: vk@, first: None, build: begun(port.width, port.height, vk@, kms@, xe) }),
{
    let build = BufBuild::new(port.width, port.height, &vk, kms, xe);
    HeadBuild { port, vk, first: None, build }
}

impl HeadBuild {
    /// Takes how the stage of the buffer in the making ended.
    pub fn step(&mut self, reply: Reply) -> (r: (Vec<Release>, HeadThen))
        requires
            !(old(self).build.stage is Over),
            answers(old(self).build.stage, reply@),
            pages_fit(old(self).build@, reply@),
        ensures
            final(self)@ == head_stepped(old(self)@, reply@),
            r.0@ == stepped(old(self).build@, reply@).1,
            head_asks(old(self)@, reply@, r.1),
    {
        let (free, then) = self.build.step(reply);
        let next: HeadThen = match then {
            Then::Made(buf) => match self.first {
                None => {
                    self.first = Some(buf);
                    let kms: Vec<u64> = self.build.kms.clone();
                    assert(kms@ =~= self.build.kms@);
                    self.build = BufBuild::new(self.port.width, self.port.height, &self.vk, kms, self.build.xe);
                    HeadThen::Buffer(Then::Go(self.build.stage))
                },
                Some(first) => HeadThen::Ready(self.head(first, buf), tier_text(first)),
            },
            Then::Failed(e) => HeadThen::Failed(e),
            other => HeadThen::Buffer(other),
        };
        (free, next)
    }

    fn head(&self, first: OutBuf, second: OutBuf) -> (o: Output)
        ensures
            o == fresh_head(self.port, first, second),
    {
        Output {
            uid: self.port.uid,
            name: self.port.name.clone(),
            conn: self.port.conn,
            width: self.port.width as u32,
            height: self.port.height as u32,
            index: 0,
            global_name: 0,
            pos: (0, 0),
            ws: 0,
            usable: Rect { x1: 0, y1: 0, x2: 0, y2: 0 },
            vrefresh: Some(self.port.vrefresh),
            connected: self.port.connected,
            dumb: first.tier == Tier::Dumb,
            front: 0,
            fbs: (first.fb, second.fb),
            paused: false,
            flip_pending: false,
            anim_pending: false,
            ws_switch: None,
            cursor: HeadCursor {
                locked: false,
                client_hidden: false,
                theme: None,
                plane: self.port.plane,
                rearm: false,
                generation: 0,
                textured: false,
            },
        }
    }
}

/// What an attempt holds while a stage is waited for.
pub open spec fn holds(s: Stage) -> Seq<Release> {
    match s {
        Stage::NativeHandle => seq![Release::Bo],
        Stage::NativeFb => seq![Release::Handle, Release::Bo],
        Stage::NativeView => seq![Release::Fb, Release::Bo],
        Stage::TiledFb => seq![Release::Handle],
        Stage::TiledExport => seq![Release::Fb, Release::Handle],
        Stage::TiledBo => seq![Release::Fb],
        Stage::TiledView => seq![Release::Fb, Release::Bo],
        _ => Seq::empty(),
    }
}

/// An attempt that gives way to another leaves nothing behind. The one exception is a
/// tiled buffer that gets no view.
pub proof fn given_up_attempts_leave_nothing(s: Stage, left: nat, xe: bool, kms: Seq<u64>)
    requires
        !(fallback(s, left, xe, kms) is Over),
        !(s is TiledView),
    ensures
        released(s, false) == holds(s),
{
}

/// How far the making of a buffer is from its end.
pub open spec fn distance(s: Stage, usable: nat) -> nat {
    match s {
        Stage::NativeBo => 16 + 4 * usable,
        Stage::NativeHandle => 15 + 4 * usable,
        Stage::NativeFb => 14 + 4 * usable,
        Stage::NativeView => 1,
        Stage::Placement => 12,
        Stage::TiledGem => 11,
        Stage::TiledFb => 10,
        Stage::TiledExport => 9,
        Stage::TiledBo => 8,
        Stage::TiledView => 7,
        Stage::DumbGem => 5,
        Stage::DumbFb => 4,
        Stage::DumbExport => 3,
        Stage::DumbBo => 2,
        Stage::DumbView => 1,
        Stage::Over => 0,
    }
}

/// Every step brings the making of a buffer closer to its end, as long as the refused
/// modifier is one that was still to be tried.
pub proof fn allocation_ends(s: Stage, ok: bool, usable: Seq<(u64, u32)>, tried: int, xe: bool, kms: Seq<u64>)
    requires
        !(s is Over),
        s is NativeFb ==> 0 <= tried < usable.len(),
    ensures
        ({
            let left = if s is NativeFb && !ok {
                usable.filter(other_than(usable[tried].0))
            } else {
                usable
            };
            let t = if ok { onward(s) } else { fallback(s, left.len(), xe, kms) };
            distance(t, left.len()) < distance(s, usable.len())
        }),
{
    if s is NativeFb && !ok {
        refusal_makes_progress(usable, tried);
    }
}

/// A head is done after finitely many steps: each one completes its first buffer, or
/// brings the buffer in the making closer to its end, as long as the renderer picks a
/// modifier that was still to be tried.
pub proof fn heads_get_done(h: HeadV, reply: ReplyV, tried: int)
    requires
        !(h.build.stage is Over),
        h.build.stage is NativeFb ==> 0 <= tried < h.build.usable.len() && h.build.usable[tried].0 == h.build.modifier,
    ensures
        ({
            let n = head_stepped(h, reply);
            ||| h.first is None && n.first is Some
            ||| n.first == h.first && distance(n.build.stage, n.build.usable.len()) < distance(
                h.build.stage,
                h.build.usable.len(),
            )
        }),
{
    allocation_ends(h.build.stage, !(reply is Failed), h.build.usable, tried, h.build.xe, h.build.kms);
}

} // verus!
