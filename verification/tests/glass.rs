use carrot::output::bringup::{dpms, DeviceEvent};
use carrot::output::capture::{output_copy, workspace_copy};
use carrot::output::compose::{
    compose_ops, tally, CapCursor, Decor, Scene, WindowNode, WorkspaceNode,
};
use carrot::output::cursor::HeadCursor;
use carrot::output::frames::{Act, FrameLoop, News};
use carrot::output::present::{FlipDone, FlipReply, Presenter};
use carrot::output::rearm::{arrange_outputs, depart, pins_of, rearm, relight, remove_global, seat_layers, share_usable, unplug};
use carrot::output::scene::{BufferInfo, Item, SurfaceInfo, SurfaceNode, FULL_ALPHA};
use carrot::output::tail::{Came, Tail, TailAct};
use carrot::output::textures::{TexCache, TexKey};
use carrot::output::topology::{heads, take_departed, tile, LayerMove, LayerPin, Layout, Port, Probe};
use carrot::output::wake::{activity, lock_session};
use carrot::output::{Display, Output};
use carrot::portal::cast::{output_source, Cast, Desktop, Feed, NodeState};
use carrot::protocol::display::{Global, WlRegistry};
use carrot::protocol::events::{Event, Out};
use carrot::protocol::image_copy_capture::{
    FrameStatus, IccFrame, IccManager, IccSession, OutputSourceManager, Target,
};
use carrot::protocol::idle::IdleState;
use carrot::protocol::session_lock::{LockOutcome, LockSlot, SessionLockManager};
use carrot::protocol::shm::{BufferStorage, Format, WlBuffer};
use carrot::protocol::{Fixed, ObjectId, SurfaceFacts};
use carrot::rect::Rect;
use carrot::shell::layer::{arrange, LayerGiven, LayerShell, LayerSurface, Layers, TOP};

const NEVER: FlipDone = FlipDone { sec: 0, usec: 0, seq: 0 };

fn rect(x1: i32, y1: i32, x2: i32, y2: i32) -> Rect {
    Rect { x1, y1, x2, y2 }
}

fn head(name: &str, uid: u64) -> Output {
    Output {
        uid,
        name: name.to_owned(),
        conn: uid as u32,
        width: 800,
        height: 600,
        index: 0,
        global_name: 100 + uid as u32,
        pos: (0, 0),
        ws: 0,
        usable: rect(0, 0, 800, 600),
        vrefresh: Some(60),
        connected: true,
        dumb: false,
        front: 0,
        fbs: (10, 20),
        paused: false,
        flip_pending: false,
        anim_pending: false,
        ws_switch: None,
        cursor: HeadCursor {
            locked: false,
            client_hidden: false,
            theme: None,
            plane: None,
            rearm: false,
            generation: 0,
            textured: false,
        },
    }
}

fn display(outputs: Vec<Output>) -> Display {
    Display { outputs, sw_image: None, sw_hot: (0, 0), sw_hidden: false, sw: false, sw_gen: 0, dpms_off: false }
}

fn presenter() -> Presenter {
    Presenter {
        dirty: false,
        undefined: (true, true),
        vrr: false,
        mode: None,
        latched: Vec::new(),
        inflight: Vec::new(),
        inflight_vsync: true,
    }
}

fn woke(damage: bool, completed: bool) -> News {
    News::Woke { damage, completed, done: NEVER }
}

fn surface(uid: u64) -> SurfaceNode {
    SurfaceNode {
        info: SurfaceInfo {
            client: 1,
            uid,
            mapped: true,
            size: (100, 80),
            content_gen: 1,
            buffer: Some(BufferInfo { width: 100, height: 80, dmabuf: false, uid, has_alpha: false }),
        },
        latched: Vec::new(),
        below: Vec::new(),
        above: Vec::new(),
    }
}

fn scene(animating: bool) -> Scene {
    let mut shown = surface(2);
    shown.latched = vec![77];
    Scene {
        lock_trees: vec![surface(9)],
        workspaces: vec![WorkspaceNode {
            tiled: vec![WindowNode {
                id: 2,
                rect: rect(10, 10, 110, 90),
                geo: (0, 0),
                fullscreen: false,
                rule_rounding: None,
                rule_shadow: None,
                alpha: FULL_ALPHA,
                solid: true,
                surface: shown,
                popups: None,
                animating,
            }],
            closing: Vec::new(),
            fullscreen: None,
            floats: Vec::new(),
            strip_moving: false,
        }],
        layers: Vec::new(),
        closing_layers: Vec::new(),
        switch_running: false,
        drag: None,
        pointer: None,
        focused: None,
        cfg: Decor { rounding: 0, shadow: None, border: 0, float_above_fullscreen: false },
    }
}

/// A lock that these outputs owe a frame, with a mapped surface on one of them.
fn held(out: &mut Out, outs: Vec<&str>, on: &str) -> LockSlot {
    let mut slot = LockSlot::new();
    let m = SessionLockManager { id: ObjectId(60), client: 1, version: 1 };
    m.lock(out, &mut slot, ObjectId(61), outs.iter().map(|n| (*n).to_owned()).collect(), false);
    let lock = slot.lock.as_mut().unwrap();
    let facts = SurfaceFacts { uid: 9, live_role: false, other_role: None, has_buffer: false };
    lock.get_lock_surface(out, ObjectId(70), ObjectId(10), ObjectId(90), Some(facts), Some(on.to_owned()), (800, 600));
    lock.surfaces[0].mapped = true;
    slot
}

fn locked_events(out: &Out) -> usize {
    out.sent.iter().filter(|s| matches!(s.event, Event::LockLocked)).count()
}

// the frame loop and the device

#[test]
fn a_paused_head_sleeps_until_it_resumes() {
    let mut n: u32 = 0;
    let mut d = display(vec![head("A", 1)]);
    let mut l = FrameLoop::new(&d.outputs[0], presenter());
    assert!(d.on_device(DeviceEvent::Pause).is_none());
    assert_eq!(l.step(&mut d.outputs[0], woke(true, false), &mut n).0, Act::Sleep);
    assert!(l.p.dirty);
    assert!(d.on_device(DeviceEvent::Resume).is_some());
    let (act, _, _) = l.step(&mut d.outputs[0], woke(false, false), &mut n);
    assert_eq!(act, Act::Render { back: 1, undefined: true }, "what was due is drawn");
}

#[test]
fn a_lost_master_is_drawn_again_after_the_resume() {
    let mut n: u32 = 0;
    let mut d = display(vec![head("A", 1)]);
    let mut l = FrameLoop::new(&d.outputs[0], presenter());
    let items = Vec::new();
    l.step(&mut d.outputs[0], woke(true, false), &mut n);
    l.step(&mut d.outputs[0], News::rendered(&items, false, false, false, false), &mut n);
    let (act, _, _) = l.step(&mut d.outputs[0], News::Flip(FlipReply::LostMaster), &mut n);
    assert_eq!(act, Act::Finish { textures: false, parked: true, shown: false });
    assert!(d.outputs[0].paused);
    assert_eq!(l.step(&mut d.outputs[0], woke(true, false), &mut n).0, Act::Sleep);
    d.on_device(DeviceEvent::Resume);
    assert!(matches!(l.step(&mut d.outputs[0], woke(false, false), &mut n).0, Act::Render { back: 1, .. }));
}

#[test]
fn a_resume_commits_the_buffer_on_glass() {
    let mut n: u32 = 0;
    let mut d = display(vec![head("A", 1)]);
    let mut l = FrameLoop::new(&d.outputs[0], presenter());
    assert_eq!(heads(&d.outputs), vec![(1, 10)]);
    l.step(&mut d.outputs[0], woke(true, false), &mut n);
    l.step(&mut d.outputs[0], News::rendered(&Vec::new(), false, false, false, false), &mut n);
    l.step(&mut d.outputs[0], News::Flip(FlipReply::Queued), &mut n);
    assert_eq!((d.outputs[0].front, d.outputs[0].flip_pending), (1, true));
    assert_eq!(heads(&d.outputs), vec![(1, 20)]);
    assert_eq!(l.step(&mut d.outputs[0], woke(true, false), &mut n).0, Act::Sleep, "the flip is on its way");
    d.on_device(DeviceEvent::Pause);
    assert_eq!(d.on_device(DeviceEvent::Resume), Some(vec![(1, 20)]));
    assert!(!d.outputs[0].flip_pending, "it never completes");
    assert_eq!(l.step(&mut d.outputs[0], woke(false, false), &mut n).0, Act::Render { back: 0, undefined: true });
}

#[test]
fn dark_heads_wake_up_with_what_is_due() {
    let mut n: u32 = 0;
    let mut d = display(vec![head("A", 1)]);
    let mut l = FrameLoop::new(&d.outputs[0], presenter());
    assert_eq!(dpms(&mut d, false), Some(Vec::new()));
    assert_eq!(l.step(&mut d.outputs[0], woke(true, false), &mut n).0, Act::Sleep);
    assert_eq!(dpms(&mut d, true), Some(vec![(1, 10)]));
    assert!(matches!(l.step(&mut d.outputs[0], woke(false, false), &mut n).0, Act::Render { .. }));
}

#[test]
fn animations_run_on_without_damage() {
    let mut n: u32 = 0;
    let mut d = display(vec![head("A", 1)]);
    let mut slot = LockSlot::new();
    let cache = TexCache::new();
    let mut l = FrameLoop::new(&d.outputs[0], presenter());
    l.step(&mut d.outputs[0], woke(true, false), &mut n);
    let c = compose_ops(&scene(true), &d, &mut slot, &cache, 0, CapCursor::Present, None);
    l.step(&mut d.outputs[0], News::rendered(&c.items, false, false, false, false), &mut n);
    assert!(d.outputs[0].anim_pending);
    assert_eq!(l.p.latched, vec![77], "the frame's feedbacks");
    l.step(&mut d.outputs[0], News::Flip(FlipReply::Queued), &mut n);
    assert!(matches!(l.step(&mut d.outputs[0], woke(false, true), &mut n).0, Act::Render { back: 0, .. }));
    let c = compose_ops(&scene(false), &d, &mut slot, &cache, 0, CapCursor::Present, None);
    l.step(&mut d.outputs[0], News::rendered(&c.items, false, false, false, false), &mut n);
    l.step(&mut d.outputs[0], News::Flip(FlipReply::Queued), &mut n);
    assert_eq!(l.step(&mut d.outputs[0], woke(false, true), &mut n).0, Act::Sleep, "it came to rest");
    l.step(&mut d.outputs[0], woke(true, false), &mut n);
    let c = compose_ops(&scene(true), &d, &mut slot, &cache, 0, CapCursor::Present, None);
    l.step(&mut d.outputs[0], News::render_failed(&c.items), &mut n);
    assert!(matches!(l.step(&mut d.outputs[0], woke(false, false), &mut n).0, Act::Render { .. }));
}

#[test]
fn a_tally_counts_what_a_frame_holds() {
    let t = tally(&vec![Item::Feedback(3), Item::Close, Item::Animating, Item::Feedback(1)]);
    assert!(t.animating);
    assert_eq!(t.claimed, vec![3, 1]);
    let t = tally(&vec![Item::Close]);
    assert!(!t.animating && t.claimed.is_empty());
}

#[test]
fn captures_note_animations_too() {
    let mut cache = TexCache::new();
    let key = TexKey { client: 1, uid: 50 };
    cache.allocated(key, 40, 100, 80, Some(1));
    let mut slot = LockSlot::new();
    let mut d = display(vec![head("A", 1)]);
    let items = output_copy(&scene(true), &mut d, &mut slot, &mut cache, 0, true);
    assert!(d.outputs[0].anim_pending);
    assert!(!items.iter().any(|i| matches!(i, Item::Feedback(_))));
    assert_eq!(cache.take_retired(), vec![40], "nothing samples it any more");
    assert!(workspace_copy(&scene(false), &mut d, &mut slot, &vec![0], &mut cache, 0).is_some());
    assert!(!d.outputs[0].anim_pending);
}

// the lock and the tail of a frame

#[test]
fn a_locked_frame_is_the_lock_surface() {
    let mut out = Out::new();
    let mut cache = TexCache::new();
    let d = display(vec![head("A", 1), head("B", 2)]);
    let mut slot = held(&mut out, vec!["A", "B"], "A");
    let shot = compose_ops(&scene(true), &d, &mut slot, &cache, 0, CapCursor::Always, None);
    assert!(shot.items.iter().any(|i| matches!(i, Item::Wanting(9))));
    assert!(slot.lock.as_ref().unwrap().staged_outputs.is_empty(), "a capture reaches no glass");
    cache.allocated(TexKey { client: 1, uid: 9 }, 41, 100, 80, Some(1));
    cache.uploaded(TexKey { client: 1, uid: 9 }, 1);
    let c = compose_ops(&scene(true), &d, &mut slot, &cache, 0, CapCursor::Present, None);
    assert!(c.items.iter().any(|i| matches!(i, Item::Tex { tex: 41, .. })));
    assert!(!tally(&c.items).animating);
    assert_eq!(slot.lock.as_ref().unwrap().staged_outputs, vec!["A"]);
    let blank = compose_ops(&scene(true), &d, &mut slot, &cache, 1, CapCursor::Present, None);
    assert!(blank.items.is_empty() && blank.sweep);
    assert_eq!(slot.lock.as_ref().unwrap().staged_outputs, vec!["A", "B"]);
}

fn desktop() -> Desktop {
    Desktop {
        outputs: vec![head("A", 1), head("B", 2)],
        bound: vec![0, 1],
        windows: Vec::new(),
        focused_output: 0,
        focused_window: None,
    }
}

fn buffer(uid: u64) -> WlBuffer {
    WlBuffer {
        id: ObjectId(75),
        uid,
        client: 1,
        rect: rect(0, 0, 800, 600),
        format: Format { drm: 0x3432_5241, wl_id: Some(0), bytes_per_pixel: 4, alpha: true },
        stride: 3200,
        storage: BufferStorage::Shm { offset: 0, sealed: false },
        destroyed: false,
    }
}

/// A session on an output that waits for its next frame.
fn waiting(out: &mut Out, name: &str, id: u32, buf: u64) -> IccSession {
    let m = OutputSourceManager { id: ObjectId(71), client: 1, version: 1 };
    let source = m.create_source(out, ObjectId(72), ObjectId(90), Some(name.to_owned())).unwrap();
    let mgr = IccManager { id: ObjectId(73), client: 1, version: 1 };
    let outs = vec![head("A", 1), head("B", 2)];
    let mut s =
        mgr.create_session(out, ObjectId(id), ObjectId(72), Some(&source), 0, id as u64, &outs, &Vec::new()).unwrap();
    let f: IccFrame = s.create_frame(out, ObjectId(id + 1)).unwrap();
    f.attach_buffer(out, &mut s, ObjectId(75), Some(buf));
    s.force = false;
    f.capture(out, &mut s);
    s
}

#[test]
fn the_tail_of_a_frame_serves_captures_then_the_lock_then_casts() {
    let mut out = Out::new();
    let outs = vec![head("A", 1), head("B", 2)];
    let d = display(vec![head("A", 1), head("B", 2)]);
    let mut slot = held(&mut out, vec!["A"], "A");
    let mut list = vec![waiting(&mut out, "A", 80, 5), waiting(&mut out, "B", 84, 6), waiting(&mut out, "A", 88, 7)];
    let bufs = vec![buffer(5), buffer(6), buffer(7)];
    let mut casts = vec![match output_source(&desktop(), "A") {
        Ok(r) => Cast::new("/s/1".to_owned(), r, false, 1),
        Err(_) => panic!("no output"),
    }];
    let nodes = vec![NodeState { width: 800, height: 600, ready: true }];
    compose_ops(&scene(false), &d, &mut slot, &TexCache::new(), 0, CapCursor::Present, None);
    let from = out.sent.len();
    let mut t = Tail::new(&list, "A".to_owned(), true);
    assert_eq!(t.waiting, vec![0, 2]);
    let now = 1_000_000_000;
    let no = Vec::new();
    let desk = desktop();
    match t.step(Came::Begun, &mut list, &outs, &no, &bufs, &mut slot, &mut out, &mut casts, &desk, &nodes, now) {
        TailAct::Copy { session, job } => {
            assert_eq!((session, job.w, job.h), (0, 800, 600));
            assert!(matches!(job.target, Target::Out(0)));
        }
        _ => panic!("a copy"),
    }
    assert_eq!(locked_events(&out), 0, "captures come first");
    let came = Came::Copied { nsec: 5 };
    match t.step(came, &mut list, &outs, &no, &bufs, &mut slot, &mut out, &mut casts, &desk, &nodes, now) {
        TailAct::Copy { session, .. } => assert_eq!(session, 2),
        _ => panic!("a copy"),
    }
    assert_eq!(list[0].status, FrameStatus::Ready);
    match t.step(Came::CopyFailed, &mut list, &outs, &no, &bufs, &mut slot, &mut out, &mut casts, &desk, &nodes, now) {
        TailAct::Over { feeds } => assert!(matches!(feeds[0], Feed::Capture { .. })),
        _ => panic!("the end"),
    }
    assert_eq!((list[1].status, list[2].status), (FrameStatus::Capturing, FrameStatus::Failed));
    assert_eq!(locked_events(&out), 1);
    let last = &out.sent[out.sent.len() - 1].event;
    assert!(matches!(last, Event::LockLocked));
    assert!(out.sent[from..].iter().any(|s| matches!(s.event, Event::FrameReady)));
    assert!(out.sent[from..].iter().any(|s| matches!(s.event, Event::FrameFailed { .. })));
}

#[test]
fn locked_waits_for_a_frame_that_was_composed_locked() {
    let mut out = Out::new();
    let outs = vec![head("A", 1)];
    let d = display(vec![head("A", 1)]);
    let mut slot = held(&mut out, vec!["A"], "A");
    let tail = |slot: &mut LockSlot, out: &mut Out, shown: bool| {
        let mut list = Vec::new();
        let mut t = Tail::new(&list, "A".to_owned(), shown);
        let (no, bufs, nodes) = (Vec::new(), Vec::new(), Vec::new());
        let mut casts = Vec::new();
        t.step(Came::Begun, &mut list, &outs, &no, &bufs, slot, out, &mut casts, &desktop(), &nodes, 0);
    };
    tail(&mut slot, &mut out, true);
    assert_eq!(locked_events(&out), 0, "a frame from before the lock");
    compose_ops(&scene(false), &d, &mut slot, &TexCache::new(), 0, CapCursor::Never, None);
    tail(&mut slot, &mut out, true);
    assert_eq!(locked_events(&out), 0, "only a capture was locked");
    compose_ops(&scene(false), &d, &mut slot, &TexCache::new(), 0, CapCursor::Present, None);
    tail(&mut slot, &mut out, false);
    assert_eq!(locked_events(&out), 0, "the kernel did not take it");
    tail(&mut slot, &mut out, true);
    assert_eq!(locked_events(&out), 1);
    tail(&mut slot, &mut out, true);
    assert_eq!(locked_events(&out), 1, "told once");
}

#[test]
fn a_lock_lights_dark_outputs() {
    let mut out = Out::new();
    let mut n: u32 = 0;
    let mut d = display(vec![head("A", 1), head("B", 2)]);
    let mut l = FrameLoop::new(&d.outputs[0], presenter());
    dpms(&mut d, false);
    let mut slot = LockSlot::new();
    let m = SessionLockManager { id: ObjectId(60), client: 1, version: 1 };
    let (outcome, set) = lock_session(&m, &mut slot, &mut d, &mut out, ObjectId(61));
    assert!(matches!(outcome, LockOutcome::Held { wake: true }));
    assert_eq!(set, Some(vec![(1, 10), (2, 10)]));
    assert_eq!(slot.lock.as_ref().unwrap().pending_outputs, vec!["A", "B"]);
    assert!(!d.dpms_off && locked_events(&out) == 0);
    assert!(matches!(l.step(&mut d.outputs[0], woke(true, false), &mut n).0, Act::Render { .. }));
    let (second, set) = lock_session(&m, &mut slot, &mut d, &mut out, ObjectId(62));
    assert!(matches!(second, LockOutcome::Finished(_)) && set.is_none());
    let mut empty = display(Vec::new());
    lock_session(&m, &mut LockSlot::new(), &mut empty, &mut out, ObjectId(63));
    assert_eq!(locked_events(&out), 1, "nobody owes a frame");
}

#[test]
fn input_lights_dark_outputs() {
    let mut out = Out::new();
    let mut idle = IdleState::new();
    let mut d = display(vec![head("A", 1)]);
    assert_eq!(activity(&mut idle, &mut d, &mut out, 5), None);
    dpms(&mut d, false);
    assert_eq!(activity(&mut idle, &mut d, &mut out, 7), Some(vec![(1, 10)]));
    assert!(!d.dpms_off && !d.outputs[0].paused);
    assert_eq!(idle.last_activity, 7);
}

// heads that come and go

fn globals() -> Vec<Global> {
    (101..104).map(|name| Global { name, interface: "wl_output".to_owned(), version: 4 }).collect()
}

fn registries() -> Vec<WlRegistry> {
    vec![WlRegistry { id: ObjectId(2), client: 1 }, WlRegistry { id: ObjectId(3), client: 2 }]
}

#[test]
fn a_removed_global_is_told_to_every_registry() {
    let mut out = Out::new();
    let mut gs = globals();
    remove_global(&mut gs, &registries(), 102, &mut out);
    assert_eq!(gs.iter().map(|g| g.name).collect::<Vec<u32>>(), vec![101, 103]);
    let told: Vec<(u32, u32)> = out.sent.iter().map(|s| (s.client, s.object.0)).collect();
    assert_eq!(told, vec![(1, 2), (2, 3)]);
    assert!(out.sent.iter().all(|s| matches!(s.event, Event::GlobalRemove { name: 102 })));
}

#[test]
fn departed_heads_take_their_captures_and_their_debt_along() {
    let mut out = Out::new();
    let mut slot = held(&mut out, vec!["A", "B"], "B");
    let mut list = vec![waiting(&mut out, "B", 80, 5), waiting(&mut out, "A", 84, 6)];
    let mut outs = vec![head("A", 1), head("B", 2)];
    outs[0].connected = false;
    outs[1].connected = false;
    let gone = take_departed(&mut outs);
    let mut gs = globals();
    let from = out.sent.len();
    depart(&gone, &mut gs, &registries(), &mut list, &mut slot, &mut out);
    assert_eq!(gs.len(), 1);
    assert!(list.iter().all(|s| s.stopped));
    let lock = slot.lock.as_ref().unwrap();
    assert!(lock.surfaces.is_empty() && lock.locked_sent);
    let said: Vec<&Event> = out.sent[from..].iter().map(|s| &s.event).collect();
    assert!(matches!(said[0], Event::GlobalRemove { name: 102 }), "the last slot first");
    assert!(matches!(said[1], Event::GlobalRemove { name: 102 }));
    assert!(matches!(said[2], Event::SessionStopped));
    assert!(matches!(said[3], Event::FrameFailed { .. }));
    assert!(matches!(said[4], Event::GlobalRemove { name: 101 }));
    assert!(matches!(said[6], Event::SessionStopped));
    assert!(matches!(said[8], Event::LockLocked), "nobody owes a frame any more");
    assert_eq!(said.len(), 9);
}

#[test]
fn an_unplugged_monitor_goes_with_all_its_traces() {
    let mut out = Out::new();
    let mut slot = held(&mut out, vec!["A", "B"], "A");
    let mut list = vec![waiting(&mut out, "A", 80, 5)];
    let mut outs = vec![head("A", 1), head("B", 2)];
    let mut ports = vec![
        Port { id: 1, connected: true, modes: Vec::new() },
        Port { id: 2, connected: true, modes: Vec::new() },
    ];
    let probes = vec![None, Some(Probe { connection: 2, modes: Vec::new() })];
    let mut gs = globals();
    let gone = unplug(&mut outs, &mut ports, probes, &mut gs, &registries(), &mut list, &mut slot, &mut out);
    assert_eq!(gone.iter().map(|o| o.uid).collect::<Vec<u64>>(), vec![2]);
    assert_eq!(outs.len(), 1);
    assert!(!list[0].stopped, "the other output's");
    assert_eq!(slot.lock.as_ref().unwrap().pending_outputs, vec!["A"]);
    assert_eq!(slot.lock.as_ref().unwrap().surfaces.len(), 1);
    assert!(!gs.iter().any(|g| g.name == 102));
}

fn bar(out: &mut Out, uid: u64, output: usize) -> LayerSurface {
    let shell = LayerShell { id: ObjectId(90), client: 1, version: 5 };
    let facts = SurfaceFacts { uid, live_role: false, other_role: None, has_buffer: false };
    let id = ObjectId(uid as u32);
    match shell.get_layer_surface(out, id, uid, ObjectId(10), Some(facts), ObjectId(0), None, output, TOP) {
        LayerGiven::Made(mut l) => {
            l.set_size(0, 30);
            l.set_anchor(out, 1 | 4 | 8);
            l.set_exclusive_zone(30);
            l.before_apply(out);
            l.linked = true;
            l.shows = true;
            l
        }
        _ => panic!("no layer surface was made"),
    }
}

fn layers(list: Vec<LayerSurface>) -> Layers {
    let whole = rect(0, 0, 1, 1);
    Layers { list, rects: vec![whole], usable: vec![whole], extent: whole, queue: Vec::new() }
}

#[test]
fn outputs_get_the_areas_that_bars_leave_over() {
    let mut out = Out::new();
    let mut outs = vec![head("A", 1), head("B", 2)];
    tile(&mut outs);
    let mut ls = layers(vec![bar(&mut out, 21, 1)]);
    seat_layers(&outs, &mut ls);
    assert_eq!(ls.rects, vec![rect(0, 0, 800, 600), rect(800, 0, 1600, 600)]);
    assert_eq!(ls.extent, rect(0, 0, 1600, 600));
    assert!(arrange(&mut ls));
    share_usable(&ls, &mut outs);
    assert_eq!(outs[0].usable, rect(0, 0, 800, 600));
    assert_eq!(outs[1].usable, rect(800, 30, 1600, 600));
    assert!(!arrange_outputs(&mut outs, &mut ls), "nothing moved");
    ls.list[0].linked = false;
    assert!(arrange_outputs(&mut outs, &mut ls));
    assert_eq!(outs[1].usable, rect(800, 0, 1600, 600));
    assert!(arrange_outputs(&mut Vec::new(), &mut ls), "headless");
    assert_eq!(ls.usable, vec![rect(0, 0, 1, 1)]);
    seat_layers(&Vec::new(), &mut ls);
    assert_eq!(ls.rects, vec![rect(0, 0, 1, 1)], "headless");
}

#[test]
fn layers_follow_their_output_or_close_with_it() {
    let mut out = Out::new();
    let mut outs = vec![head("B", 2)];
    tile(&mut outs);
    let mut ls = layers(vec![bar(&mut out, 21, 0), bar(&mut out, 22, 1)]);
    let mut slot = held(&mut out, vec!["B"], "B");
    let moves =
        vec![LayerMove::Close { id: 21, named: true }, LayerMove::Keep { id: 22, slot: 0, announce: true }];
    let from = out.sent.len();
    let fx = rearm(&outs, &moves, &mut ls, &mut slot, &mut out);
    assert!(fx[0].left_dead && fx[0].dismiss);
    assert_eq!(fx[1].output, Some(true));
    assert!(ls.list[0].closed && !ls.list[0].linked);
    assert_eq!(ls.list[1].output, 0);
    assert_eq!(ls.list[1].rect, rect(0, 0, 800, 30));
    assert_eq!(ls.rects, vec![rect(0, 0, 800, 600)]);
    assert_eq!(ls.usable, vec![rect(0, 30, 800, 600)]);
    assert_eq!(ls.queue, vec![22]);
    let said: Vec<&Event> = out.sent[from..].iter().map(|s| &s.event).collect();
    assert_eq!(said.len(), 2);
    assert!(matches!(said[0], Event::LockConfigure { serial: 2, width: 800, height: 600 }));
    assert!(matches!(said[1], Event::LayerClosed));
}

#[test]
fn a_new_row_is_lit_in_one_go() {
    let mut out = Out::new();
    let mut outs = vec![head("B", 2)];
    let before = vec![1, 2];
    let mut l = Layout { bound: vec![0, 1], focused: 1, active_ws: 1, size: (1600, 600) };
    let mut ls = layers(vec![bar(&mut out, 21, 0), bar(&mut out, 22, 1)]);
    assert_eq!(pins_of(&ls.list)[1], LayerPin { id: 22, output: 1, shown: true });
    let mut slot = LockSlot::new();
    let (set, fx) = relight(&mut outs, vec![head("C", 3)], &before, &mut l, &mut ls, &mut slot, &mut out);
    assert_eq!(set, vec![(2, 10), (3, 10)]);
    assert_eq!((outs[0].pos, outs[1].pos), ((0, 0), (800, 0)));
    assert_eq!(outs[0].usable, rect(0, 30, 800, 600));
    assert_eq!(outs[1].usable, rect(800, 0, 1600, 600));
    assert!(fx[0].left_dead && fx[1].output == Some(true));
    assert_eq!((l.focused, l.size), (0, (1600, 600)));
}

#[test]
fn a_size_is_told_once_with_the_next_serial() {
    let mut out = Out::new();
    let mut ls = layers(vec![bar(&mut out, 21, 0)]);
    seat_layers(&vec![head("A", 1)], &mut ls);
    arrange(&mut ls);
    let from = out.sent.len();
    ls.flush_configure(0, &mut out);
    ls.flush_configure(0, &mut out);
    assert_eq!(out.sent.len(), from + 1);
    assert!(matches!(out.sent[from].event, Event::LayerConfigure { serial: 1, width: 800, height: 30 }));
    assert_eq!((ls.list[0].last_sent, ls.list[0].next_serial), (1, 2));
    ls.list[0].last_sent = u32::MAX - 1;
    ls.list[0].next_serial = u32::MAX;
    ls.list[0].last_cfg = None;
    ls.flush_configure(0, &mut out);
    assert_eq!((ls.list[0].last_sent, ls.list[0].next_serial), (u32::MAX, 1), "zero is no serial");
    ls.list[0].closed = true;
    ls.list[0].last_cfg = None;
    ls.flush_configure(0, &mut out);
    assert_eq!(out.sent.len(), from + 2, "closed");
}

#[test]
fn integers_are_exact_in_24_bits() {
    assert_eq!(Fixed::from_int(2).0, 512);
    assert_eq!(Fixed::from_int(-8_388_608).0, i32::MIN);
    assert_eq!(Fixed::from_int(8_388_607).0, 8_388_607 * 256);
    assert_eq!(Fixed::from_int(8_388_608).0, Fixed::from_int(-8_388_608).0, "only the low bits count");
}
