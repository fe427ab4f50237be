//! A portal screencast: what it streams, when a presented frame feeds it, and
//! what a token restores.
use crate::output::{first_slot, first_slot_absent, first_slot_found, named, output_geometry, slot_named, Output};
use crate::pipewire::client_node::{node_fresh, numbered, opening, SourceNode};
use crate::pipewire::{
    hello_body, identity_body, nth, pair_body, Fault, PwConn, PwError, CLIENT_UPDATE_PROPERTIES, CORE_HELLO, CORE_SYNC,
};
use crate::rect::Rect;
use crate::text::same_text;
use vstd::prelude::*;

verus! {

/// The id of a cast's node on its own connection.
pub const PROXY_ID: u32 = 2;

/// The sync that follows the creation of a cast's node.
pub const COOKIE: i32 = 0x0ca5;

/// What a session's token restores. Windows match by ident in a session and by
/// app id and title across restarts.
pub enum RestoreData {
    Output { name: String },
    Window { ident: u64, app_id: String, title: String },
    Workspace { index: usize },
}

pub enum Pick {
    /// a picker choice; the window must still exist
    Ident(u64),
    Restored(RestoreData),
}

/// What a cast streams.
pub enum Source {
    Output(String),
    Window { ident: u64, app_id: String, title: String },
    /// follows the workspace across outputs, streaming only while it is on glass
    Workspace(usize),
}

/// A live window.
pub struct Window {
    pub ident: u64,
    pub app_id: String,
    pub title: String,
    /// the workspace that holds it
    pub ws: Option<usize>,
    pub mapped: bool,
    /// where it is drawn
    pub rect: Rect,
}

/// What casts are resolved and fed against. Windows are listed workspace by
/// workspace, in layout order.
pub struct Desktop {
    pub outputs: Vec<Output>,
    /// the output slot each workspace is bound to
    pub bound: Vec<usize>,
    pub windows: Vec<Window>,
    pub focused_output: usize,
    /// the window with focus, as a slot in `windows`
    pub focused_window: Option<usize>,
}

/// A resolved pick.
pub struct Resolved {
    pub source: Source,
    pub width: u32,
    pub height: u32,
    pub fps: u32,
    pub pos: (i32, i32),
}

pub open spec fn refresh_spec(o: Output) -> u32 {
    match o.vrefresh {
        Some(hz) => if hz < 1 { 1 } else { hz },
        None => 60,
    }
}

/// The rate of an output; 60 without a mode, never zero.
pub fn refresh(out: &Output) -> (r: u32)
    ensures
        r == refresh_spec(*out),
        r >= 1,
{
    match out.vrefresh {
        Some(hz) => if hz < 1 { 1 } else { hz },
        None => 60,
    }
}

/// The output a name restores: itself, else the focused one, else the first.
pub open spec fn output_pick(d: Desktop, name: Seq<char>) -> Option<int> {
    match first_slot(d.outputs@, named(name)) {
        Some(k) => Some(k),
        None => if d.focused_output < d.outputs@.len() {
            Some(d.focused_output as int)
        } else if d.outputs@.len() > 0 {
            Some(0)
        } else {
            None
        },
    }
}

/// A vanished output falls back rather than failing the restore outright.
pub fn output_source(d: &Desktop, name: &str) -> (r: Result<Resolved, PwError>)
    ensures
        match output_pick(*d, name@) {
            None => r == Err::<Resolved, PwError>(PwError::Env(Fault::NoOutput)),
            Some(k) => {
                let o = d.outputs@[k];
                r == Ok::<Resolved, PwError>(
                    Resolved {
                        source: Source::Output(o.name),
                        width: o.width,
                        height: o.height,
                        fps: refresh_spec(o),
                        pos: o.pos,
                    },
                )
            },
        },
{
    let k: usize = match slot_named(&d.outputs, name) {
        Some(k) => k,
        None => if d.focused_output < d.outputs.len() {
            d.focused_output
        } else if d.outputs.len() > 0 {
            0
        } else {
            return Err(PwError::Env(Fault::NoOutput));
        },
    };
    let o: &Output = &d.outputs[k];
    Ok(
        Resolved {
            source: Source::Output(o.name.clone()),
            width: o.width,
            height: o.height,
            fps: refresh(o),
            pos: o.pos,
        },
    )
}

/// A workspace sizes as its assigned output, else as the first one.
pub fn workspace_source(d: &Desktop, index: usize) -> (r: Result<Resolved, PwError>)
    ensures
        index >= d.bound@.len() ==> r == Err::<Resolved, PwError>(PwError::Env(Fault::NoWorkspace)),
        index < d.bound@.len() && d.outputs@.len() == 0 ==> r == Err::<Resolved, PwError>(
            PwError::Env(Fault::NoOutput),
        ),
        index < d.bound@.len() && d.outputs@.len() > 0 ==> {
            let slot = d.bound@[index as int];
            let o = d.outputs@[if slot < d.outputs@.len() { slot as int } else { 0 }];
            r == Ok::<Resolved, PwError>(
                Resolved {
                    source: Source::Workspace(index),
                    width: o.width,
                    height: o.height,
                    fps: refresh_spec(o),
                    pos: o.pos,
                },
            )
        },
{
    if index >= d.bound.len() {
        return Err(PwError::Env(Fault::NoWorkspace));
    }
    if d.outputs.len() == 0 {
        return Err(PwError::Env(Fault::NoOutput));
    }
    let slot: usize = d.bound[index];
    let o: &Output = if slot < d.outputs.len() { &d.outputs[slot] } else { &d.outputs[0] };
    Ok(
        Resolved {
            source: Source::Workspace(index),
            width: o.width,
            height: o.height,
            fps: refresh(o),
            pos: o.pos,
        },
    )
}

/// The rate a window is cast at: its output's, else 60.
pub open spec fn window_rate(d: Desktop, w: Window) -> u32 {
    match w.ws {
        None => 60,
        Some(ws) => if ws < d.bound@.len() && d.bound@[ws as int] < d.outputs@.len() {
            refresh_spec(d.outputs@[d.bound@[ws as int] as int])
        } else {
            60
        },
    }
}

/// A window sizes as it is drawn.
pub open spec fn window_source_spec(d: Desktop, w: Window) -> Result<Resolved, PwError> {
    if w.rect.empty_spec() {
        Err(PwError::Env(Fault::NoSize))
    } else {
        Ok(
            Resolved {
                source: Source::Window { ident: w.ident, app_id: w.app_id, title: w.title },
                width: (w.rect.x2 - w.rect.x1) as u32,
                height: (w.rect.y2 - w.rect.y1) as u32,
                fps: window_rate(d, w),
                pos: (w.rect.x1, w.rect.y1),
            },
        )
    }
}

pub fn window_source(d: &Desktop, k: usize) -> (r: Result<Resolved, PwError>)
    requires
        k < d.windows@.len(),
    ensures
        r == window_source_spec(*d, d.windows@[k as int]),
{
    let w: &Window = &d.windows[k];
    if w.rect.is_empty() {
        return Err(PwError::Env(Fault::NoSize));
    }
    let fps: u32 = match w.ws {
        None => 60,
        Some(ws) => if ws < d.bound.len() && d.bound[ws] < d.outputs.len() {
            refresh(&d.outputs[d.bound[ws]])
        } else {
            60
        },
    };
    let width: i64 = w.rect.x2 as i64 - w.rect.x1 as i64;
    let height: i64 = w.rect.y2 as i64 - w.rect.y1 as i64;
    Ok(
        Resolved {
            source: Source::Window { ident: w.ident, app_id: w.app_id.clone(), title: w.title.clone() },
            width: width as u32,
            height: height as u32,
            fps,
            pos: (w.rect.x1, w.rect.y1),
        },
    )
}

/// A window in some workspace with this ident.
pub open spec fn placed_ident(ident: u64) -> spec_fn(Window) -> bool {
    |w: Window| w.ws is Some && w.ident == ident
}

/// The highest slot that satisfies `p`.
pub open spec fn last_slot<A>(s: Seq<A>, p: spec_fn(A) -> bool) -> Option<int>
    decreases s.len(),
{
    if s.len() == 0 {
        None
    } else if p(s.last()) {
        Some(s.len() - 1)
    } else {
        last_slot(s.drop_last(), p)
    }
}

/// The window with this ident.
pub fn window_by_ident(d: &Desktop, ident: u64) -> (r: Option<usize>)
    ensures
        match r {
            Some(k) => last_slot(d.windows@, placed_ident(ident)) == Some(k as int) && k < d.windows@.len(),
            None => last_slot(d.windows@, placed_ident(ident)) is None,
        },
{
    let mut hit: Option<usize> = None;
    for i in 0..d.windows.len()
        invariant
            match hit {
                Some(k) => last_slot(d.windows@.take(i as int), placed_ident(ident)) == Some(k as int) && k < i,
                None => last_slot(d.windows@.take(i as int), placed_ident(ident)) is None,
            },
    {
        assert(d.windows@.take(i + 1).drop_last() =~= d.windows@.take(i as int));
        if d.windows[i].ws.is_some() && d.windows[i].ident == ident {
            hit = Some(i);
        }
    }
    assert(d.windows@.take(d.windows@.len() as int) =~= d.windows@);
    hit
}

/// A placed window of this app; an empty app id names none.
pub open spec fn of_app(app_id: Seq<char>) -> spec_fn(Window) -> bool {
    |w: Window| w.ws is Some && w.app_id@ == app_id && app_id.len() > 0
}

pub open spec fn of_app_titled(app_id: Seq<char>, title: Seq<char>) -> spec_fn(Window) -> bool {
    |w: Window| of_app(app_id)(w) && w.title@ == title
}

/// The window a token names: by ident, else the first with its app id and
/// title, else the first with its app id.
pub open spec fn find_spec(ws: Seq<Window>, ident: u64, app_id: Seq<char>, title: Seq<char>) -> Option<int> {
    match last_slot(ws, placed_ident(ident)) {
        Some(k) => Some(k),
        None => match first_slot(ws, of_app_titled(app_id, title)) {
            Some(k) => Some(k),
            None => first_slot(ws, of_app(app_id)),
        },
    }
}

pub fn find_window(d: &Desktop, ident: u64, app_id: &str, title: &str) -> (r: Option<usize>)
    ensures
        match r {
            Some(k) => find_spec(d.windows@, ident, app_id@, title@) == Some(k as int) && k < d.windows@.len(),
            None => find_spec(d.windows@, ident, app_id@, title@) is None,
        },
{
    match window_by_ident(d, ident) {
        Some(k) => {
            return Some(k);
        },
        None => {},
    }
    let mut by_both: Option<usize> = None;
    let mut by_app: Option<usize> = None;
    for i in 0..d.windows.len()
        invariant
            match by_both {
                Some(k) => first_slot(d.windows@.take(i as int), of_app_titled(app_id@, title@)) == Some(k as int)
                    && k < i,
                None => first_slot(d.windows@.take(i as int), of_app_titled(app_id@, title@)) is None,
            },
            match by_app {
                Some(k) => first_slot(d.windows@.take(i as int), of_app(app_id@)) == Some(k as int) && k < i,
                None => first_slot(d.windows@.take(i as int), of_app(app_id@)) is None,
            },
    {
        assert(d.windows@.take(i + 1).drop_last() =~= d.windows@.take(i as int));
        let w: &Window = &d.windows[i];
        if w.ws.is_some() && same_text(w.app_id.as_str(), app_id) && !app_id.is_empty() {
            if same_text(w.title.as_str(), title) && by_both.is_none() {
                by_both = Some(i);
            }
            if by_app.is_none() {
                by_app = Some(i);
            }
        }
    }
    assert(d.windows@.take(d.windows@.len() as int) =~= d.windows@);
    match by_both {
        Some(k) => Some(k),
        None => by_app,
    }
}

/// The window that a restored window pick casts: a stale token falls back to
/// the focused window.
pub open spec fn restored_window(d: Desktop, ident: u64, app_id: Seq<char>, title: Seq<char>) -> Option<int> {
    match find_spec(d.windows@, ident, app_id, title) {
        Some(k) => Some(k),
        None => match d.focused_window {
            Some(f) => if f < d.windows@.len() { Some(f as int) } else { None },
            None => None,
        },
    }
}

/// Turns a pick into something to stream.
pub fn resolve(d: &Desktop, pick: Pick) -> (r: Result<Resolved, PwError>)
    ensures
        match pick {
            Pick::Ident(ident) => match last_slot(d.windows@, placed_ident(ident)) {
                None => r == Err::<Resolved, PwError>(PwError::Env(Fault::WindowGone)),
                Some(k) => r == window_source_spec(*d, d.windows@[k]),
            },
            Pick::Restored(RestoreData::Window { ident, app_id, title }) => match restored_window(
                *d,
                ident,
                app_id@,
                title@,
            ) {
                None => r == Err::<Resolved, PwError>(PwError::Env(Fault::NoWindow)),
                Some(k) => r == window_source_spec(*d, d.windows@[k]),
            },
            Pick::Restored(RestoreData::Output { name }) => match output_pick(*d, name@) {
                None => r == Err::<Resolved, PwError>(PwError::Env(Fault::NoOutput)),
                Some(k) => r matches Ok(s) && s.source == Source::Output(d.outputs@[k].name) && s.width
                    == d.outputs@[k].width && s.height == d.outputs@[k].height && s.fps == refresh_spec(
                    d.outputs@[k],
                ) && s.pos == d.outputs@[k].pos,
            },
            Pick::Restored(RestoreData::Workspace { index }) => {
                &&& index >= d.bound@.len() ==> r == Err::<Resolved, PwError>(PwError::Env(Fault::NoWorkspace))
                &&& index < d.bound@.len() && d.outputs@.len() == 0 ==> r == Err::<Resolved, PwError>(
                    PwError::Env(Fault::NoOutput),
                )
                &&& index < d.bound@.len() && d.outputs@.len() > 0 ==> {
                    let slot = d.bound@[index as int];
                    let o = d.outputs@[if slot < d.outputs@.len() { slot as int } else { 0 }];
                    r matches Ok(s) && s.source == Source::Workspace(index) && s.width == o.width && s.height
                        == o.height && s.fps == refresh_spec(o) && s.pos == o.pos
                }
            },
        },
{
    match pick {
        Pick::Restored(RestoreData::Output { name }) => output_source(d, name.as_str()),
        Pick::Restored(RestoreData::Workspace { index }) => workspace_source(d, index),
        Pick::Ident(ident) => match window_by_ident(d, ident) {
            None => Err(PwError::Env(Fault::WindowGone)),
            Some(k) => window_source(d, k),
        },
        Pick::Restored(RestoreData::Window { ident, app_id, title }) => {
            match find_window(d, ident, app_id.as_str(), title.as_str()) {
                Some(k) => window_source(d, k),
                None => match d.focused_window {
                    None => Err(PwError::Env(Fault::NoWindow)),
                    Some(f) => if f < d.windows.len() {
                        window_source(d, f)
                    } else {
                        Err(PwError::Env(Fault::NoWindow))
                    },
                },
            }
        },
    }
}

/// The workspace the presented output currently shows.
pub open spec fn shown_spec(d: Desktop, name: Seq<char>) -> Option<int> {
    match first_slot(d.outputs@, named(name)) {
        None => None,
        Some(k) => if d.outputs@[k].ws < d.bound@.len() {
            Some(d.outputs@[k].ws as int)
        } else {
            None
        },
    }
}

pub fn shown_workspace(d: &Desktop, name: &str) -> (r: Option<usize>)
    ensures
        match r {
            Some(w) => shown_spec(*d, name@) == Some(w as int),
            None => shown_spec(*d, name@) is None,
        },
{
    match slot_named(&d.outputs, name) {
        None => None,
        Some(k) => if d.outputs[k].ws < d.bound.len() {
            Some(d.outputs[k].ws)
        } else {
            None
        },
    }
}

/// A running cast.
pub struct Cast {
    /// the portal session handle path
    pub session: String,
    /// the daemon-side global
    pub node_id: u32,
    pub width: u32,
    pub height: u32,
    pub pos: (i32, i32),
    pub source: Source,
    /// paint the pointer into the frames
    pub cursor: bool,
    /// presents can outpace the negotiated rate; feeding gates on this
    pub frame_ns: u64,
    pub last: u64,
    /// the size the resizer was last asked for
    pub resize_target: (u32, u32),
    /// the daemon or the source is gone
    pub dead: bool,
}

/// What a cast captures.
#[derive(Clone, Copy, Debug, PartialEq, Eq, Structural)]
pub enum Cap {
    /// the output in this slot
    Out(usize),
    /// the window with this ident
    Win(u64),
}

/// What a presented frame makes a cast do.
#[derive(Clone, Copy, Debug, PartialEq, Eq, Structural)]
pub enum Feed {
    Nothing,
    /// renegotiate the stream
    Resize { width: u32, height: u32 },
    Capture { cap: Cap, width: u32, height: u32 },
}

/// The state of a cast's node.
#[derive(Clone, Copy, Debug)]
pub struct NodeState {
    pub width: u32,
    pub height: u32,
    pub ready: bool,
}

/// What a cast would capture of this present, with its size; `Gone` when its source is
/// gone for good.
pub enum Aim {
    Gone,
    Idle,
    At(Cap, u32, u32),
}

pub open spec fn has_ident(ident: u64) -> spec_fn(Window) -> bool {
    |w: Window| w.ident == ident
}

pub open spec fn geometry_aim(d: Desktop, name: Seq<char>) -> Aim {
    match first_slot(d.outputs@, named(name)) {
        None => Aim::Idle,
        Some(k) => Aim::At(Cap::Out(d.outputs@[k].index), d.outputs@[k].width, d.outputs@[k].height),
    }
}

/// A window streams only while mapped, with a size, and while its workspace is
/// the one on glass on the presented output.
pub open spec fn aim_spec(src: Source, d: Desktop, presented: Seq<char>) -> Aim {
    match src {
        Source::Output(name) => if name@ != presented {
            Aim::Idle
        } else {
            geometry_aim(d, name@)
        },
        Source::Window { ident, .. } => match first_slot(d.windows@, has_ident(ident)) {
            None => Aim::Gone,
            Some(k) => {
                let w = d.windows@[k];
                if w.mapped && w.ws is Some && shown_spec(d, presented) == Some((w.ws->0) as int)
                    && !w.rect.empty_spec() {
                    Aim::At(
                        Cap::Win(ident),
                        (w.rect.x2 - w.rect.x1) as u32,
                        (w.rect.y2 - w.rect.y1) as u32,
                    )
                } else {
                    Aim::Idle
                }
            },
        },
        Source::Workspace(index) => if index >= d.bound@.len() {
            Aim::Gone
        } else if shown_spec(d, presented) == Some(index as int) {
            geometry_aim(d, presented)
        } else {
            Aim::Idle
        },
    }
}

fn find_ident(d: &Desktop, ident: u64) -> (r: Option<usize>)
    ensures
        match r {
            Some(k) => first_slot(d.windows@, has_ident(ident)) == Some(k as int) && k < d.windows@.len(),
            None => first_slot(d.windows@, has_ident(ident)) is None,
        },
{
    for i in 0..d.windows.len()
        invariant
            forall|j: int| 0 <= j < i ==> !has_ident(ident)(#[trigger] d.windows@[j]),
    {
        if d.windows[i].ident == ident {
            proof {
                first_slot_found(d.windows@, has_ident(ident), i as int);
            }
            return Some(i);
        }
    }
    proof {
        first_slot_absent(d.windows@, has_ident(ident));
    }
    None
}

fn aim_at(src: &Source, d: &Desktop, presented: &str) -> (r: Aim)
    ensures
        r == aim_spec(*src, *d, presented@),
{
    match src {
        Source::Output(name) => {
            if !same_text(name.as_str(), presented) {
                return Aim::Idle;
            }
            match output_geometry(&d.outputs, presented) {
                None => Aim::Idle,
                Some((idx, w, h)) => Aim::At(Cap::Out(idx), w, h),
            }
        },
        Source::Window { ident, .. } => match find_ident(d, *ident) {
            None => Aim::Gone,
            Some(k) => {
                let w: &Window = &d.windows[k];
                if !w.mapped {
                    return Aim::Idle;
                }
                match w.ws {
                    None => Aim::Idle,
                    Some(ws) => match shown_workspace(d, presented) {
                        None => Aim::Idle,
                        Some(shown) => {
                            if ws != shown || w.rect.is_empty() {
                                return Aim::Idle;
                            }
                            let width: i64 = w.rect.x2 as i64 - w.rect.x1 as i64;
                            let height: i64 = w.rect.y2 as i64 - w.rect.y1 as i64;
                            Aim::At(Cap::Win(*ident), width as u32, height as u32)
                        },
                    },
                }
            },
        },
        Source::Workspace(index) => {
            if *index >= d.bound.len() {
                return Aim::Gone;
            }
            match shown_workspace(d, presented) {
                None => Aim::Idle,
                Some(shown) => {
                    if shown != *index {
                        return Aim::Idle;
                    }
                    match output_geometry(&d.outputs, presented) {
                        None => Aim::Idle,
                        Some((idx, w, h)) => Aim::At(Cap::Out(idx), w, h),
                    }
                },
            }
        },
    }
}

/// Enough time passed since the last frame: a tenth of a period early is fine.
pub open spec fn due(c: Cast, now: u64) -> bool {
    let since = if now >= c.last { now - c.last } else { 0 };
    since >= c.frame_ns - c.frame_ns / 10
}

/// What feeding makes a cast do, and what it becomes.
pub open spec fn feed_spec(c: Cast, d: Desktop, presented: Seq<char>, n: NodeState, now: u64) -> (Cast, Feed) {
    match aim_spec(c.source, d, presented) {
        Aim::Gone => (Cast { dead: true, ..c }, Feed::Nothing),
        Aim::Idle => (c, Feed::Nothing),
        Aim::At(cap, w, h) => if w != n.width || h != n.height {
            if c.resize_target != (w, h) {
                (Cast { resize_target: (w, h), ..c }, Feed::Resize { width: w, height: h })
            } else {
                (c, Feed::Nothing)
            }
        } else if !n.ready || !due(c, now) || (cap is Out && (w > i32::MAX || h > i32::MAX)) {
            (c, Feed::Nothing)
        } else {
            (c, Feed::Capture { cap, width: w, height: h })
        },
    }
}

/// A cast that streams what was resolved, before its first frame.
pub open spec fn fresh_cast(session: String, r: Resolved, cursor: bool, node_id: u32) -> Cast {
    Cast {
        session,
        node_id,
        width: r.width,
        height: r.height,
        pos: r.pos,
        source: r.source,
        cursor,
        frame_ns: (1_000_000_000u64 / r.fps as u64) as u64,
        last: 0,
        resize_target: (r.width, r.height),
        dead: false,
    }
}

/// What a cast says on its own connection: who it is, its node, and a sync to wait for.
pub open spec fn cast_opening(r: Resolved) -> Seq<(u32, u8, Seq<u8>)> {
    seq![
        (0u32, CORE_HELLO, hello_body()),
        (1u32, CLIENT_UPDATE_PROPERTIES, identity_body()),
    ] + opening(PROXY_ID, r.width, r.height, r.fps) + seq![(0u32, CORE_SYNC, pair_body(0, COOKIE))]
}

/// The node of a cast, and the frames that create it.
pub fn begin(con: &mut PwConn, r: &Resolved) -> (n: (SourceNode, Vec<Vec<u8>>))
    requires
        r.width * r.height * 4 <= u32::MAX,
        r.width * 4 <= u32::MAX,
    ensures
        n.0@ == node_fresh(PROXY_ID, r.width, r.height, r.fps),
        n.1@.len() == 7,
        forall|i: int| 0 <= i < 7 ==> (#[trigger] n.1@[i])@ == numbered(cast_opening(*r)[i], old(con).seq, i),
        final(con).seq == nth(old(con).seq, 7),
        final(con).inbuf == old(con).inbuf && final(con).pending_fds == old(con).pending_fds,
{
    let ghost first = con.seq;
    let (hello, identity) = con.hello();
    let (node, mut made) = SourceNode::create(con, PROXY_ID, r.width, r.height, r.fps);
    let sync: Vec<u8> = con.sync(COOKIE);
    let mut out: Vec<Vec<u8>> = Vec::new();
    out.push(hello);
    out.push(identity);
    let ghost ask = opening(PROXY_ID, r.width, r.height, r.fps);
    assert(forall|i: int| 0 <= i < 4 ==> (#[trigger] made@[i])@ == numbered(ask[i], first, i + 2));
    let ghost asked = made@;
    out.append(&mut made);
    out.push(sync);
    assert forall|i: int| 0 <= i < 7 implies (#[trigger] out@[i])@ == numbered(cast_opening(*r)[i], first, i) by {
        if 2 <= i < 6 {
            assert(out@[i] == asked[i - 2]);
            assert(cast_opening(*r)[i] == ask[i - 2]);
        }
    }
    (node, out)
}

/// The daemon acked the creation: the cast goes live, unless it never bound the node.
pub fn start(casts: &mut Vec<Cast>, session: String, r: Resolved, cursor: bool, bound_global: Option<u32>) -> (s: Result<
    (),
    PwError,
>)
    requires
        r.fps > 0,
    ensures
        match bound_global {
            None => s == Err::<(), PwError>(PwError::Env(Fault::NeverBound)) && final(casts)@ == old(casts)@,
            Some(id) => s is Ok && final(casts)@ == old(casts)@.push(fresh_cast(session, r, cursor, id)),
        },
{
    match bound_global {
        None => Err(PwError::Env(Fault::NeverBound)),
        Some(id) => {
            casts.push(Cast::new(session, r, cursor, id));
            Ok(())
        },
    }
}

impl Cast {
    /// A cast whose node the daemon bound.
    pub fn new(session: String, r: Resolved, cursor: bool, node_id: u32) -> (c: Cast)
        requires
            r.fps > 0,
        ensures
            c == fresh_cast(session, r, cursor, node_id),
    {
        Cast {
            session,
            node_id,
            width: r.width,
            height: r.height,
            pos: r.pos,
            source: r.source,
            cursor,
            frame_ns: 1_000_000_000 / r.fps as u64,
            last: 0,
            resize_target: (r.width, r.height),
            dead: false,
        }
    }

    /// What a fresh token for this cast should restore.
    pub fn restore_data(&self) -> (r: RestoreData)
        ensures
            r == (match self.source {
                Source::Output(n) => RestoreData::Output { name: n },
                Source::Window { ident, app_id, title } => RestoreData::Window { ident, app_id, title },
                Source::Workspace(index) => RestoreData::Workspace { index },
            }),
    {
        match &self.source {
            Source::Output(n) => RestoreData::Output { name: n.clone() },
            Source::Window { ident, app_id, title } => RestoreData::Window {
                ident: *ident,
                app_id: app_id.clone(),
                title: title.clone(),
            },
            Source::Workspace(index) => RestoreData::Workspace { index: *index },
        }
    }

    /// A frame was presented: captures it, asks for a resize (once per size), or
    /// does nothing.
    pub fn feed(&mut self, d: &Desktop, presented: &str, node: NodeState, now: u64) -> (r: Feed)
        ensures
            (*final(self), r) == feed_spec(*old(self), *d, presented@, node, now),
    {
        match aim_at(&self.source, d, presented) {
            Aim::Gone => {
                self.dead = true;
                Feed::Nothing
            },
            Aim::Idle => Feed::Nothing,
            Aim::At(cap, w, h) => {
                if w != node.width || h != node.height {
                    if self.resize_target.0 != w || self.resize_target.1 != h {
                        self.resize_target = (w, h);
                        return Feed::Resize { width: w, height: h };
                    }
                    return Feed::Nothing;
                }
                if !node.ready {
                    return Feed::Nothing;
                }
                if now.saturating_sub(self.last) < self.frame_ns - self.frame_ns / 10 {
                    return Feed::Nothing;
                }
                let whole: bool = match cap {
                    Cap::Out(_) => w <= i32::MAX as u32 && h <= i32::MAX as u32,
                    Cap::Win(_) => true,
                };
                if whole {
                    Feed::Capture { cap, width: w, height: h }
                } else {
                    Feed::Nothing
                }
            },
        }
    }

    /// A captured frame went out.
    pub fn fed(&mut self, now: u64)
        ensures
            *final(self) == (Cast { last: now, ..*old(self) }),
    {
        self.last = now;
    }
}

/// A window that was cast restores to itself while it lives in some workspace:
/// its token resolves to the same source.
pub proof fn restore_finds_the_window(d: Desktop, k: int)
    requires
        0 <= k < d.windows@.len(),
        d.windows@[k].ws is Some,
        forall|i: int, j: int|
            0 <= i < j < d.windows@.len() ==> (#[trigger] d.windows@[i]).ident != (#[trigger] d.windows@[j]).ident,
    ensures
        find_spec(
            d.windows@,
            d.windows@[k].ident,
            d.windows@[k].app_id@,
            d.windows@[k].title@,
        ) == Some(k),
{
    last_slot_unique(d.windows@, placed_ident(d.windows@[k].ident), k);
}

proof fn last_slot_unique(s: Seq<Window>, p: spec_fn(Window) -> bool, k: int)
    requires
        0 <= k < s.len(),
        p(s[k]),
        forall|j: int| 0 <= j < s.len() && j != k ==> !p(#[trigger] s[j]),
    ensures
        last_slot(s, p) == Some(k),
    decreases s.len(),
{
    if k < s.len() - 1 {
        assert(forall|j: int| 0 <= j < s.len() - 1 ==> s.drop_last()[j] == s[j]);
        last_slot_unique(s.drop_last(), p, k);
    }
}

/// A cast whose source has another size than its stream renegotiates once and captures
/// nothing until the node has that size.
pub proof fn size_changes_renegotiate(c: Cast, d: Desktop, presented: Seq<char>, n: NodeState, now: u64)
    requires
        aim_spec(c.source, d, presented) matches Aim::At(_, w, h) && (w != n.width || h != n.height),
    ensures
        ({
            let (after, fed) = feed_spec(c, d, presented, n, now);
            let size = (aim_spec(c.source, d, presented)->At_1, aim_spec(c.source, d, presented)->At_2);
            &&& after == (Cast { resize_target: size, ..c })
            &&& fed == (if c.resize_target == size {
                Feed::Nothing
            } else {
                Feed::Resize { width: size.0, height: size.1 }
            })
            &&& forall|later: u64| (#[trigger] feed_spec(after, d, presented, n, later)) == (after, Feed::Nothing)
        }),
{
}

/// What is captured has the size that the stream was negotiated for, the node can take
/// it, and the last frame is at least nine tenths of a period back.
pub proof fn frames_fit_the_stream(c: Cast, d: Desktop, presented: Seq<char>, n: NodeState, now: u64)
    requires
        feed_spec(c, d, presented, n, now).1 is Capture,
    ensures
        feed_spec(c, d, presented, n, now).1->Capture_width == n.width,
        feed_spec(c, d, presented, n, now).1->Capture_height == n.height,
        n.ready,
        10 * now >= 10 * c.last + 9 * c.frame_ns || c.frame_ns == 0,
        feed_spec(c, d, presented, n, now).0 == c,
{
}

/// A cast whose window or workspace is gone captures nothing and dies; the next present
/// sweeps it out.
pub proof fn gone_sources_end_the_cast(c: Cast, d: Desktop, presented: Seq<char>, n: NodeState, now: u64)
    requires
        aim_spec(c.source, d, presented) is Gone,
    ensures
        feed_spec(c, d, presented, n, now) == (Cast { dead: true, ..c }, Feed::Nothing),
        !alive()(feed_spec(c, d, presented, n, now).0),
{
}

/// The casts and what each does, once those that died before leave.
pub open spec fn alive() -> spec_fn(Cast) -> bool {
    |c: Cast| !c.dead
}

/// One cast fed: a dead one is left alone.
pub open spec fn fed_one(c: Cast, d: Desktop, presented: Seq<char>, n: NodeState, now: u64) -> (Cast, Feed) {
    if c.dead { (c, Feed::Nothing) } else { feed_spec(c, d, presented, n, now) }
}

pub open spec fn fed_all(cs: Seq<Cast>, d: Desktop, presented: Seq<char>, ns: Seq<NodeState>, now: u64) -> Seq<Cast> {
    Seq::new(cs.len(), |i: int| fed_one(cs[i], d, presented, ns[i], now).0)
}

pub open spec fn some_dead(cs: Seq<Cast>) -> bool {
    exists|i: int| 0 <= i < cs.len() && (#[trigger] cs[i]).dead
}

/// `b` and `feeds` are what becomes of the casts `a` when an output presented a frame.
pub open spec fn presented_casts(
    a: Seq<Cast>,
    b: Seq<Cast>,
    feeds: Seq<Feed>,
    d: Desktop,
    name: Seq<char>,
    nodes: Seq<NodeState>,
    now: u64,
) -> bool {
    let after = fed_all(a, d, name, nodes, now);
    &&& feeds.len() == a.len()
    &&& forall|i: int| 0 <= i < feeds.len() ==> #[trigger] feeds[i] == fed_one(a[i], d, name, nodes[i], now).1
    &&& b == (if some_dead(a) { after.filter(alive()) } else { after })
}

/// Present tail: feeds every live cast from the frame just shown. Where a cast
/// was already dead, the dead ones leave. `nodes` holds the node state of each
/// cast, and the result what each one does.
pub fn output_presented(
    casts: &mut Vec<Cast>,
    d: &Desktop,
    presented: &str,
    nodes: &Vec<NodeState>,
    now: u64,
) -> (r: Vec<Feed>)
    requires
        nodes@.len() == old(casts)@.len(),
    ensures
        presented_casts(old(casts)@, final(casts)@, r@, *d, presented@, nodes@, now),
{
    let n: usize = casts.len();
    let ghost before = casts@;
    let mut out: Vec<Feed> = Vec::new();
    let mut sweep: bool = false;
    for i in 0..n
        invariant
            n == casts@.len(),
            n == before.len(),
            nodes@.len() == n,
            out@.len() == i,
            sweep == exists|j: int| 0 <= j < i && (#[trigger] before[j]).dead,
            forall|j: int| 0 <= j < i ==> #[trigger] out@[j] == fed_one(before[j], *d, presented@, nodes@[j], now).1,
            forall|j: int| 0 <= j < i ==> casts@[j] == fed_one(#[trigger] before[j], *d, presented@, nodes@[j], now).0,
            forall|j: int| i <= j < n ==> casts@[j] == before[j],
    {
        assert(casts@[i as int] == before[i as int]);
        if casts[i].dead {
            sweep = true;
            out.push(Feed::Nothing);
        } else {
            let f: Feed = casts[i].feed(d, presented, nodes[i], now);
            out.push(f);
        }
    }
    let ghost after = fed_all(before, *d, presented@, nodes@, now);
    assert(casts@ =~= after);
    if sweep {
        retain_alive(casts);
    }
    out
}

fn retain_alive(casts: &mut Vec<Cast>)
    ensures
        final(casts)@ == old(casts)@.filter(alive()),
{
    let ghost all = casts@;
    let n: usize = casts.len();
    let mut k: usize = 0;
    proof {
        reveal(Seq::filter);
        assert(all.take(0).filter(alive()) =~= Seq::<Cast>::empty());
        assert(casts@ =~= all.take(0).filter(alive()) + all.skip(0));
    }
    for i in 0..n
        invariant
            n == all.len(),
            k == all.take(i as int).filter(alive()).len(),
            casts@ == all.take(i as int).filter(alive()) + all.skip(i as int),
    {
        let ghost front = all.take(i as int).filter(alive());
        let ghost before = casts@;
        proof {
            reveal(Seq::filter);
            assert(all.take(i + 1).drop_last() =~= all.take(i as int));
            assert(casts@[k as int] == all[i as int]);
        }
        if casts[k].dead {
            casts.remove(k);
            assert(casts@ =~= front + all.skip(i + 1));
        } else {
            k = k + 1;
            assert(before =~= front.push(all[i as int]) + all.skip(i + 1));
        }
    }
    assert(all.take(n as int) =~= all);
    assert(casts@ =~= all.filter(alive()));
}

pub open spec fn of_other_session(path: Seq<char>) -> spec_fn(Cast) -> bool {
    |c: Cast| c.session@ != path
}

/// A closed session takes its casts with it.
pub fn close_session(casts: &mut Vec<Cast>, path: &str)
    ensures
        final(casts)@ == old(casts)@.filter(of_other_session(path@)),
{
    let ghost p = of_other_session(path@);
    let ghost all = casts@;
    let n: usize = casts.len();
    let mut k: usize = 0;
    proof {
        reveal(Seq::filter);
        assert(all.take(0).filter(p) =~= Seq::<Cast>::empty());
        assert(casts@ =~= all.take(0).filter(p) + all.skip(0));
    }
    for i in 0..n
        invariant
            n == all.len(),
            p == of_other_session(path@),
            k == all.take(i as int).filter(p).len(),
            casts@ == all.take(i as int).filter(p) + all.skip(i as int),
    {
        let ghost front = all.take(i as int).filter(p);
        let ghost before = casts@;
        proof {
            reveal(Seq::filter);
            assert(all.take(i + 1).drop_last() =~= all.take(i as int));
            assert(casts@[k as int] == all[i as int]);
        }
        if same_text(casts[k].session.as_str(), path) {
            casts.remove(k);
            assert(casts@ =~= front + all.skip(i + 1));
        } else {
            k = k + 1;
            assert(before =~= front.push(all[i as int]) + all.skip(i + 1));
        }
    }
    assert(all.take(n as int) =~= all);
    assert(casts@ =~= all.filter(p));
}

} // verus!
