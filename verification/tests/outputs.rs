use carrot::output::boot::{start, Boot, Phase, Reply as Said, Then as Next};
use carrot::output::bringup::{
    after_commit, bind_workspaces, card_nodes, cramped, dmabuf_formats, dpms, foreign_card, is_card_node, number_heads,
    place_head, BringUp, CommitReply, DeviceEvent, ARGB8888, EINVAL, XRGB8888,
};
use carrot::output::capture::{capture_slot, screencopy, window_capture, window_plan, workspace_copy};
use carrot::output::closing::{
    batch_of, cap_evict, capture_closing, drop_finished, push_closing, replay_closing, seize_batch, ClosingWindow,
};
use carrot::output::compose::{
    compose, compose_ops, live_keys, push_borders, stage_of, CapCursor, Decor, DragIcon, Scene, WindowNode, WorkspaceNode,
};
use carrot::output::cursor::{default_cursor, draw_sw_cursor, seed_cursor, CursorImage, CursorPlane, HeadCursor};
use carrot::output::frames::{Act, Beat, FrameLoop, News};
use carrot::output::present::{
    closing_effect, frame_done, frame_target, layer_slide, opening_effect, preferred_mode, refresh_ns, start_ws_switch,
    tearing_wanted, vrr_wanted, window_effect, Effect, FlipDone, FlipMode, FlipReply, ModeTiming, OutputConfig, Presenter,
    Style, TearingHint, Travel, Vrr, Wake, FLAG_VSYNC,
};
use carrot::output::scanout::{
    init_output, refuse, tier_text, tiled_layout, usable_modifiers, BufBuild, HeadBuild, HeadPort, HeadThen, OutBuf, Release, Reply,
    Stage as BufStage, Then, Tier, TILE4,
};
use carrot::output::scene::{Area, BufferInfo, Item, Owner, SurfaceInfo, SurfaceNode, FULL_ALPHA};
use carrot::output::supply::{pack_rows, supplied, supply, uploaded, Pixels, Readable, Supply};
use carrot::output::textures::{Demand, TexCache, TexKey};
use carrot::output::topology::{
    arrivals, finish_topology, free_crtcs, heads, remap, replug, rescan, survivor, take_departed, tile, union_extent, Connector, Crtc, LayerMove,
    LayerPin, Layout, Port, Probe,
};
use carrot::output::{
    hotplug_action, output_geometry, pointer_column, pointer_span, slide_offset, slot_named, Dir, Display, Hotplug, Output,
};
use carrot::protocol::events::Out;
use carrot::protocol::session_lock::{LockSlot, SessionLockManager};
use carrot::protocol::{ObjectId, SurfaceFacts};
use carrot::rect::Rect;

fn rect(x1: i32, y1: i32, x2: i32, y2: i32) -> Rect {
    Rect { x1, y1, x2, y2 }
}

fn cursor() -> HeadCursor {
    HeadCursor { locked: false, client_hidden: false, theme: None, plane: None, rearm: false, generation: 0, textured: false }
}

fn head(name: &str, uid: u64, w: u32, h: u32) -> Output {
    Output {
        uid,
        name: name.to_owned(),
        conn: uid as u32,
        width: w,
        height: h,
        index: 0,
        global_name: 0,
        pos: (0, 0),
        ws: 0,
        usable: rect(0, 0, w as i32, h as i32),
        vrefresh: Some(60),
        connected: true,
        dumb: false,
        front: 0,
        fbs: (10 + uid as u32, 20 + uid as u32),
        paused: false,
        flip_pending: false,
        anim_pending: false,
        ws_switch: None,
        cursor: cursor(),
    }
}

fn display(outputs: Vec<Output>) -> Display {
    Display { outputs, sw_image: None, sw_hot: (0, 0), sw_hidden: false, sw: false, sw_gen: 0, dpms_off: false }
}

// topology

#[test]
fn outputs_tile_from_left_to_right() {
    let mut outs = vec![head("A", 1, 800, 600), head("B", 2, 1024, 768)];
    tile(&mut outs);
    assert_eq!((outs[0].pos, outs[1].pos), ((0, 0), (800, 0)));
    assert_eq!(union_extent(&outs, 7), (1824, 768));
    assert_eq!(slot_named(&outs, "B"), Some(1));
    assert_eq!(slot_named(&outs, "C"), None);
    assert_eq!(output_geometry(&outs, "B"), Some((1, 1024, 768)));
    let d = display(outs);
    assert_eq!(d.output_at(900, 10), Some(1));
    assert_eq!(d.output_at(900, 700), Some(1));
    assert_eq!(d.output_at(10, 700), None);
    assert_eq!(pointer_span(&d.outputs), Some((0, 1823)));
    assert_eq!(pointer_column(&d.outputs, 900), (0, 767));
}

#[test]
fn survivors_keep_their_slots_in_mind() {
    let before = vec![1, 2, 3];
    let after = vec![head("B", 2, 800, 600), head("C", 3, 800, 600)];
    assert_eq!(survivor(&before, &after, 1), Some(0));
    assert_eq!(survivor(&before, &after, 0), None);
    assert_eq!(remap(&before, &after, 2), 1);
    assert_eq!(remap(&before, &after, 0), 0);
}

#[test]
fn unplugging_moves_everything_to_what_is_left() {
    let mut outs = vec![head("A", 1, 800, 600), head("B", 2, 1024, 768)];
    tile(&mut outs);
    outs[0].ws = 0;
    outs[1].ws = 1;
    outs[0].connected = false;
    let before: Vec<u64> = outs.iter().map(|o| o.uid).collect();
    let gone = take_departed(&mut outs);
    assert_eq!(gone.len(), 1);
    assert_eq!(gone[0].uid, 1);
    let mut l = Layout { bound: vec![0, 1, 0, 1, 0, 1, 0, 1, 0, 1], focused: 0, active_ws: 0, size: (1824, 768) };
    let pins = vec![LayerPin { id: 5, output: 0, shown: true }, LayerPin { id: 6, output: 1, shown: true }];
    let moves = finish_topology(&mut outs, &before, &mut l, &pins);
    assert_eq!(l.size, (1024, 768));
    assert_eq!(outs[0].pos, (0, 0));
    assert!(l.bound.iter().all(|b| *b == 0));
    assert!(matches!(moves[0], LayerMove::Close { id: 5, named: true }));
    assert!(matches!(moves[1], LayerMove::Keep { id: 6, slot: 0, .. }));
}

#[test]
fn only_new_connectors_arrive() {
    let outs = vec![head("A", 1, 800, 600)];
    let known = vec![Connector { id: 1, piped: true }, Connector { id: 2, piped: true }, Connector { id: 3, piped: false }];
    let new = arrivals(&known, &outs);
    assert_eq!(new.iter().map(|c| c.id).collect::<Vec<u32>>(), vec![2]);
    assert_eq!(heads(&outs), vec![(1, 11)]);
}

#[test]
fn a_failed_probe_reads_as_unplugged() {
    let mut p = Port { id: 4, connected: true, modes: vec![1] };
    p.probe(Some(Probe { connection: 1, modes: vec![2, 3] }));
    assert!(p.connected);
    assert_eq!(p.modes, vec![2, 3]);
    p.probe(Some(Probe { connection: 2, modes: Vec::new() }));
    assert!(!p.connected);
    let mut crtcs = vec![Crtc { id: 1, connector: 4 }, Crtc { id: 2, connector: 5 }];
    free_crtcs(&mut crtcs, 1, 4);
    assert!(crtcs.iter().all(|c| c.connector != 4));
}

// bring-up

#[test]
fn cards_are_tried_in_name_order() {
    let entries: Vec<String> = ["renderD128", "card1", "card0", "by-path"].iter().map(|s| s.to_string()).collect();
    assert_eq!(card_nodes(&entries), vec!["card0".to_owned(), "card1".to_owned()]);
    assert!(is_card_node("card0"));
    assert!(!is_card_node("renderD128"));
    assert!(foreign_card("card1-DP-1", "card0").is_some());
    assert!(foreign_card("card0-DP-1", "card0").is_none());
}

#[test]
fn heads_are_dropped_when_the_link_is_full() {
    let mut outs = vec![head("A", 1, 800, 600), head("B", 2, 800, 600)];
    assert!(!cramped(&outs));
    outs[1].dumb = true;
    assert!(cramped(&outs), "linear scanout next to another head");
    let r = after_commit(&mut outs, CommitReply::Refused { modeset: true, errno: EINVAL });
    assert!(matches!(r, BringUp::Again));
    assert_eq!(outs.len(), 1, "the newest head goes");
    assert!(matches!(after_commit(&mut outs, CommitReply::Refused { modeset: true, errno: 13 }), BringUp::NextCard));
    assert!(matches!(after_commit(&mut outs, CommitReply::Accepted), BringUp::Lit));
}

fn said_head(name: &str, uid: u64, hz: u32, dumb: bool) -> Said {
    let mut head = head(name, uid, 800, 600);
    head.vrefresh = Some(hz);
    head.dumb = dumb;
    Said::Head { head, theme: None, arrow: 1 }
}

fn boot(cards: &[&str], cfg: Vec<OutputConfig>) -> (Boot, Next) {
    start(&cards.iter().map(|s| s.to_string()).collect(), cfg)
}

#[test]
fn a_session_without_cards_runs_headless() {
    let (b, then) = boot(&["renderD128"], Vec::new());
    assert!(matches!(then, Next::Headless));
    assert_eq!(b.phase, Phase::Over);
}

#[test]
fn the_first_card_with_a_head_is_used() {
    let (mut b, then) = boot(&["card1", "card0", "card2"], Vec::new());
    assert!(matches!(then, Next::Open { card: 0 }));
    assert_eq!(b.cards[0], "card0");
    assert!(matches!(b.step(Said::NoCard), Next::Open { card: 1 }));
    assert!(matches!(b.step(Said::Card { conns: vec![7, 8] }), Next::Make { conn: 7 }));
    assert!(matches!(b.step(Said::NoHead), Next::Make { conn: 8 }));
    match b.step(said_head("A", 1, 240, false)) {
        Next::Commit(heads) => assert_eq!(heads, vec![(1, 11)]),
        _ => panic!("nothing was committed"),
    }
    assert!(matches!(b.step(Said::Commit(CommitReply::Accepted)), Next::Lit));
    let mut bound = Vec::new();
    let (d, size) = b.finish(false, &mut bound);
    assert_eq!(size, (800, 600));
    assert_eq!(bound, vec![0]);
    assert_eq!(d.outputs.len(), 1);
    assert!(!d.software_cursor());
}

#[test]
fn secondaries_slow_down_beside_linear_scanout() {
    let (mut b, _) = boot(&["card0"], Vec::new());
    b.step(Said::Card { conns: vec![1, 2, 3] });
    b.step(said_head("A", 1, 240, true));
    b.step(said_head("B", 2, 240, true));
    assert!(matches!(b.step(said_head("C", 3, 165, true)), Next::StepDown { slot: 1 }));
    assert!(matches!(b.step(Said::Stepped(165)), Next::StepDown { slot: 1 }));
    assert!(matches!(b.step(Said::Stepped(120)), Next::StepDown { slot: 2 }));
    assert!(matches!(b.step(Said::Lowest), Next::Commit(_)));
    // the kernel refuses the combination: the newest head goes
    match b.step(Said::Commit(CommitReply::Refused { modeset: true, errno: EINVAL })) {
        Next::Commit(heads) => assert_eq!(heads.len(), 2),
        _ => panic!("no smaller set was tried"),
    }
    assert!(matches!(b.step(Said::Commit(CommitReply::Refused { modeset: true, errno: 13 })), Next::Headless));
}

#[test]
fn a_configured_mode_is_kept() {
    let cfg = vec![OutputConfig { name: "B".to_owned(), vrr: Vrr::Off, allow_tearing: false, mode: Some((800, 600, Some(240))) }];
    let (mut b, _) = boot(&["card0"], cfg);
    b.step(Said::Card { conns: vec![1, 2] });
    b.step(said_head("A", 1, 240, true));
    assert!(matches!(b.step(said_head("B", 2, 240, true)), Next::Commit(_)));
    b.step(Said::Commit(CommitReply::Accepted));
    let mut bound = vec![0, 0, 0];
    let (d, size) = b.finish(true, &mut bound);
    assert_eq!(size, (1600, 600));
    assert_eq!(bound, vec![0, 1, 0]);
    assert_eq!((d.outputs[1].index, d.outputs[1].pos, d.outputs[1].ws), (1, (800, 0), 1));
    assert!(d.software_cursor());
}

#[test]
fn a_rescan_swaps_what_left_for_what_came() {
    let mut outs = vec![head("A", 1, 800, 600), head("B", 2, 1024, 768)];
    tile(&mut outs);
    let before: Vec<u64> = outs.iter().map(|o| o.uid).collect();
    let mut ports =
        vec![Port { id: 1, connected: true, modes: vec![5] }, Port { id: 2, connected: true, modes: Vec::new() }];
    let gone = rescan(&mut outs, &mut ports, vec![Some(Probe { connection: 2, modes: Vec::new() }), None]);
    assert_eq!(gone.iter().map(|o| o.uid).collect::<Vec<u64>>(), vec![1]);
    assert_eq!(outs.len(), 1);
    let mut l = Layout { bound: vec![0, 1], focused: 1, active_ws: 1, size: (1824, 768) };
    let (set, _) = replug(&mut outs, vec![head("C", 3, 640, 480)], &before, &mut l, &Vec::new());
    assert_eq!(set, vec![(2, 12), (3, 13)]);
    assert_eq!((outs[0].pos, outs[1].pos), ((0, 0), (1024, 0)));
    assert_eq!(l.size, (1664, 768));
    assert_eq!(l.focused, 0, "the focus follows its output");
}

#[test]
fn heads_are_placed_and_numbered() {
    let mut outs = Vec::new();
    let x = place_head(&mut outs, 0, head("A", 1, 800, 600));
    let x = place_head(&mut outs, x, head("B", 2, 1024, 768));
    assert_eq!(x, 1824);
    assert_eq!(outs[1].pos, (800, 0));
    number_heads(&mut outs);
    assert_eq!((outs[0].index, outs[1].index), (0, 1));
    let mut bound = vec![0; 10];
    bind_workspaces(&mut bound, 2);
    assert!(bound.contains(&1));
    assert_eq!(dmabuf_formats(&vec![5]), vec![(XRGB8888, 5), (ARGB8888, 5)]);
}

#[test]
fn devices_pause_and_resume() {
    let mut d = display(vec![head("A", 1, 800, 600)]);
    d.outputs[0].flip_pending = true;
    assert!(d.on_device(DeviceEvent::Pause).is_none());
    assert!(d.outputs[0].paused);
    let lit = d.on_device(DeviceEvent::Resume).unwrap();
    assert_eq!(lit, vec![(1, 11)]);
    assert!(!d.outputs[0].paused && !d.outputs[0].flip_pending);
    assert!(dpms(&mut d, true).is_none(), "already lit");
    dpms(&mut d, false);
    assert!(d.dpms_off);
    assert!(dpms(&mut d, true).is_some());
}

#[test]
fn hotplug_events_are_sorted() {
    assert_eq!(hotplug_action(true, None, None), Hotplug::Rescan);
    assert_eq!(hotplug_action(false, Some(true), Some(3)), Hotplug::AddInput);
    assert_eq!(hotplug_action(false, Some(false), Some(3)), Hotplug::RemoveInput { devnum: 3 });
    assert_eq!(hotplug_action(false, None, None), Hotplug::Ignore);
}

// scanout

#[test]
fn modifiers_must_suit_both_sides() {
    let mut u = usable_modifiers(&vec![(1, 1), (2, 1), (3, 2)], &vec![3, 1]);
    assert_eq!(u, vec![(1, 1), (3, 2)]);
    refuse(&mut u, 1);
    assert_eq!(u, vec![(3, 2)]);
}

#[test]
fn tiled_buffers_are_whole_pages() {
    assert!(tiled_layout(&vec![1], 100, 50, 4096).is_none());
    let l = tiled_layout(&vec![TILE4], 100, 50, 4096).unwrap();
    assert_eq!(l.pitch % 128, 0);
    assert_eq!(l.rows % 32, 0);
    assert_eq!(l.size % 4096, 0);
    assert!(l.size >= l.pitch as u64 * l.rows as u64);
}

#[test]
fn a_refused_framebuffer_frees_its_memory() {
    let mut b = BufBuild::new(800, 600, &vec![(1, 1)], vec![1], false);
    let (free, next) = b.step(Reply::Bo { modifier: 1 });
    assert!(free.is_empty());
    assert!(matches!(next, Then::Go(BufStage::NativeHandle)));
    let (_, next) = b.step(Reply::Done);
    assert!(matches!(next, Then::Go(BufStage::NativeFb)));
    let (free, _) = b.step(Reply::Failed("refused".to_owned()));
    assert!(free.contains(&Release::Bo));
}

#[test]
fn a_native_buffer_is_made_in_steps() {
    let mut b = BufBuild::new(800, 600, &vec![(1, 1)], vec![1], false);
    b.step(Reply::Bo { modifier: 1 });
    b.step(Reply::Done);
    b.step(Reply::Fb { fb: 40 });
    let (free, next) = b.step(Reply::Done);
    assert!(free.is_empty());
    assert!(matches!(next, Then::Made(OutBuf { tier: Tier::Native, fb: 40, modifier: 1 })));
}

fn port() -> HeadPort {
    HeadPort {
        uid: 3,
        name: "DP-1".to_owned(),
        conn: 77,
        width: 800,
        height: 600,
        vrefresh: 60,
        connected: true,
        plane: None,
    }
}

fn native(h: &mut HeadBuild, fb: u32) -> HeadThen {
    h.step(Reply::Bo { modifier: TILE4 });
    h.step(Reply::Done);
    h.step(Reply::Fb { fb });
    h.step(Reply::Done).1
}

#[test]
fn a_head_gets_two_buffers() {
    let mut h = init_output(port(), vec![(TILE4, 1)], vec![], false);
    assert!(matches!(native(&mut h, 40), HeadThen::Buffer(Then::Go(BufStage::NativeBo))));
    match native(&mut h, 41) {
        HeadThen::Ready(o, words) => {
            assert_eq!((o.fbs, o.front, o.dumb, o.conn, o.uid), ((40, 41), 0, false, 77, 3));
            assert_eq!((o.width, o.height, o.vrefresh), (800, 600, Some(60)));
            assert_eq!(words, "kms tile4 import");
        }
        _ => panic!("no head"),
    }
}

#[test]
fn a_head_without_memory_fails() {
    let mut h = init_output(port(), vec![], vec![], true);
    assert!(matches!(h.build.stage, BufStage::Placement));
    assert!(matches!(
        h.step(Reply::Placement { page: 4096 }).1,
        HeadThen::Buffer(Then::Gem { pitch: 3200, size: 1_945_600 })
    ));
    assert!(matches!(h.step(Reply::Failed("full".to_owned())).1, HeadThen::Buffer(Then::Go(BufStage::DumbGem))));
    match h.step(Reply::Failed("no".to_owned())).1 {
        HeadThen::Failed(e) => assert_eq!(e, "create_dumb: no"),
        _ => panic!("a head"),
    }
}

#[test]
fn scanout_tiers_have_names() {
    assert_eq!(tier_text(OutBuf { tier: Tier::Dumb, fb: 1, modifier: 0 }), "dumb-buffer import");
    assert_eq!(tier_text(OutBuf { tier: Tier::Tiled, fb: 1, modifier: TILE4 }), "kms tile4 import");
    assert_eq!(tier_text(OutBuf { tier: Tier::Native, fb: 1, modifier: 5 }), "vulkan-native");
}

// presenting

fn presenter() -> Presenter {
    Presenter {
        dirty: false,
        undefined: (true, true),
        vrr: false,
        mode: Some(ModeTiming { htotal: 2200, vtotal: 1125, clock: 148_500 }),
        latched: Vec::new(),
        inflight: Vec::new(),
        inflight_vsync: true,
    }
}

const NEVER: FlipDone = FlipDone { sec: 0, usec: 0, seq: 0 };

#[test]
fn a_mode_has_a_period() {
    assert_eq!(refresh_ns(ModeTiming { htotal: 2200, vtotal: 1125, clock: 148_500 }), 16_666_666);
    assert_eq!(frame_target(1, 500, Some(ModeTiming { htotal: 2200, vtotal: 1125, clock: 148_500 }), false, 7), 1_017_166_666);
    assert_eq!(frame_target(1, 500, None, false, 7), 7);
    assert_eq!(frame_target(0, 0, Some(ModeTiming { htotal: 2200, vtotal: 1125, clock: 148_500 }), false, 7), 7);
}

#[test]
fn damage_renders_the_other_buffer() {
    let mut p = presenter();
    let mut h = head("A", 1, 800, 600);
    assert!(matches!(p.wake(&h, false, NEVER), (Wake::Idle, _)));
    assert!(matches!(p.wake(&h, true, NEVER), (Wake::Render { back: 1 }, _)));
    h.flip_pending = true;
    assert!(matches!(p.wake(&h, true, NEVER), (Wake::Idle, _)));
    assert!(p.dirty, "kept for the next wake");
}

fn rendered(claimed: Vec<u64>, fence: bool, tearing: bool) -> News {
    News::Rendered { claimed, animating: false, fence, vrr_wanted: false, tearing, vrr_dirty: false }
}

#[test]
fn a_frame_goes_round() {
    let mut n: u32 = 0;
    let mut h = head("A", 1, 800, 600);
    let mut l = FrameLoop::new(&h, presenter());
    assert_eq!(l.step(&mut h, News::Woke { damage: false, completed: false, done: NEVER }, &mut n).0, Act::Sleep);
    assert_eq!(
        l.step(&mut h, News::Woke { damage: true, completed: false, done: NEVER }, &mut n).0,
        Act::Render { back: 1, undefined: true }
    );
    assert_eq!(l.step(&mut h, rendered(vec![8], true, false), &mut n).0, Act::Flip { back: 1, fenced: true });
    assert_eq!(n, 1);
    let (act, _, lost) = l.step(&mut h, News::Flip(FlipReply::Queued), &mut n);
    assert_eq!((act, lost.len(), h.front), (Act::Await, 0, 1));
    assert_eq!(l.p.inflight, vec![8]);
    assert_eq!(l.step(&mut h, News::FenceSignalled, &mut n).0, Act::Finish { textures: true, parked: true, shown: true });
    assert_eq!((n, l.beat), (0, Beat::Waiting));
    let (act, told, _) = l.step(&mut h, News::Woke { damage: false, completed: true, done: FlipDone { sec: 1, usec: 2, seq: 3 } }, &mut n);
    assert_eq!((act, told.len(), told[0].feedback), (Act::Sleep, 1, 8));
}

#[test]
fn a_refused_tear_flips_in_step() {
    let mut n: u32 = 1;
    let mut h = head("A", 1, 800, 600);
    let mut l = FrameLoop::new(&h, presenter());
    l.step(&mut h, News::Woke { damage: true, completed: false, done: NEVER }, &mut n);
    assert_eq!(l.step(&mut h, rendered(vec![], true, true), &mut n).0, Act::Await, "rendered to the end first");
    assert_eq!(l.step(&mut h, News::FenceSignalled, &mut n).0, Act::FlipAsync { back: 1 });
    assert_eq!(l.step(&mut h, News::AsyncRefused, &mut n).0, Act::Flip { back: 1, fenced: true });
    let (act, _, _) = l.step(&mut h, News::Flip(FlipReply::Failed), &mut n);
    assert_eq!((act, l.p.dirty, h.front), (Act::Await, true, 0));
    assert!(l.p.inflight_vsync);
    assert_eq!(l.step(&mut h, News::FenceSignalled, &mut n).0, Act::Finish { textures: true, parked: false, shown: false });
    assert_eq!(n, 1);
}

#[test]
fn a_torn_frame_is_not_in_step() {
    let mut n: u32 = 0;
    let mut h = head("A", 1, 800, 600);
    let mut l = FrameLoop::new(&h, presenter());
    l.step(&mut h, News::Woke { damage: true, completed: false, done: NEVER }, &mut n);
    assert_eq!(l.step(&mut h, rendered(vec![], false, true), &mut n).0, Act::FlipAsync { back: 1 });
    let (act, _, _) = l.step(&mut h, News::Flip(FlipReply::Queued), &mut n);
    assert_eq!(act, Act::Finish { textures: false, parked: true, shown: true }, "no fence, textures stay");
    assert!(!l.p.inflight_vsync);
}

#[test]
fn a_lost_card_drops_its_feedback() {
    let mut n: u32 = 0;
    let mut h = head("A", 1, 800, 600);
    let mut l = FrameLoop::new(&h, presenter());
    l.step(&mut h, News::Woke { damage: true, completed: false, done: NEVER }, &mut n);
    l.step(&mut h, rendered(vec![1, 2], true, false), &mut n);
    let (_, _, lost) = l.step(&mut h, News::Flip(FlipReply::LostMaster), &mut n);
    assert_eq!(lost, vec![1, 2]);
    assert!(h.paused && l.p.dirty);
    l.step(&mut h, News::FenceSignalled, &mut n);
    assert_eq!(l.step(&mut h, News::Woke { damage: true, completed: false, done: NEVER }, &mut n).0, Act::Sleep);
    h.paused = false;
    let mut m = FrameLoop::new(&h, presenter());
    m.step(&mut h, News::Woke { damage: true, completed: false, done: NEVER }, &mut n);
    assert_eq!(m.step(&mut h, News::RenderFailed { claimed: vec![5], animating: false }, &mut n).0, Act::Sleep);
    assert_eq!((m.p.latched.clone(), m.p.dirty, m.beat), (vec![5], false, Beat::Waiting));
}

#[test]
fn feedback_is_told_when_its_flip_completes() {
    let mut p = presenter();
    let mut h = head("A", 1, 800, 600);
    p.latched = vec![4, 5];
    p.wake(&h, true, NEVER);
    assert_eq!(p.rendered(1, false, false, false), FlipMode::Sync);
    assert!(p.flipped(&mut h, 1, FlipReply::Queued).is_empty());
    assert_eq!((h.front, p.inflight.len()), (1, 2));
    h.flip_pending = false;
    let (_, told) = p.wake(&h, false, FlipDone { sec: 3, usec: 250, seq: 9 });
    assert_eq!(told.len(), 2);
    assert_eq!((told[0].feedback, told[0].sec, told[0].nsec, told[0].seq), (4, 3, 250_000, 9));
    assert_eq!(told[0].refresh, 16_666_666);
    assert!(told[0].flags & FLAG_VSYNC != 0);
}

#[test]
fn a_torn_frame_is_not_vsynced() {
    let mut p = presenter();
    let mut h = head("A", 1, 800, 600);
    p.latched = vec![4];
    assert_eq!(p.rendered(1, false, true, false), FlipMode::Async);
    p.tore();
    p.flipped(&mut h, 1, FlipReply::Queued);
    h.flip_pending = false;
    let (_, told) = p.wake(&h, false, FlipDone { sec: 3, usec: 0, seq: 9 });
    assert_eq!(told[0].flags & FLAG_VSYNC, 0);
}

#[test]
fn a_lost_card_discards_its_feedback() {
    let mut p = presenter();
    p.latched = vec![4];
    p.inflight = vec![3];
    let mut h = head("A", 1, 800, 600);
    assert_eq!(p.flipped(&mut h, 1, FlipReply::LostMaster), vec![4, 3]);
    assert!(h.paused && p.dirty);
    let mut p = presenter();
    p.latched = vec![4];
    assert!(p.flipped(&mut h, 1, FlipReply::Failed).is_empty());
    assert_eq!(p.latched, vec![4], "kept for the next try");
    assert_eq!(frame_done(1), (0, true));
    assert_eq!(frame_done(0), (0, true));
    assert_eq!(frame_done(3), (2, false));
}

#[test]
fn outputs_follow_their_configuration() {
    let cfg = vec![OutputConfig { name: "A".to_owned(), vrr: Vrr::Automatic, allow_tearing: true, mode: Some((800, 600, None)) }];
    let mut warned = false;
    assert_eq!(vrr_wanted(&cfg, "A", true, true, &mut warned), (true, false));
    assert_eq!(vrr_wanted(&cfg, "A", true, false, &mut warned), (false, false));
    assert_eq!(vrr_wanted(&cfg, "A", false, true, &mut warned), (false, true));
    assert_eq!(vrr_wanted(&cfg, "A", false, true, &mut warned), (false, false));
    assert_eq!(preferred_mode(&cfg, "A"), Some((800, 600, None)));
    assert_eq!(preferred_mode(&cfg, "B"), None);
    let game = Some(TearingHint { client: true, rule: false });
    assert!(tearing_wanted(&cfg, "A", true, false, game));
    assert!(!tearing_wanted(&cfg, "A", true, true, game));
    assert!(!tearing_wanted(&cfg, "B", true, false, game));
}

#[test]
fn workspaces_switch_by_style() {
    let mut h = head("A", 1, 800, 600);
    start_ws_switch(&mut h, Some(Style::SlideFade), false, 1, 3);
    let s = h.ws_switch.unwrap();
    assert_eq!((s.from_ws, s.vert, s.travel, s.fade, s.ahead), (1, false, Travel::Fraction, true, true));
    start_ws_switch(&mut h, Some(Style::SlideVert), false, 3, 1);
    assert!(matches!(h.ws_switch, Some(s) if s.vert && !s.ahead && !s.fade && s.travel == Travel::Whole));
    start_ws_switch(&mut h, None, false, 3, 1);
    assert!(h.ws_switch.is_none(), "turned off");
}

// closing windows

fn closing(x: i32) -> ClosingWindow {
    ClosingWindow { ops: Vec::new(), keep: vec![x as u64], rect: rect(x, 0, x + 10, 10), style: Style::Fade, done: false }
}

#[test]
fn closing_cap_evicts_oldest() {
    let mut list: Vec<ClosingWindow> = (0..8).map(closing).collect();
    let evicted = cap_evict(&mut list);
    assert_eq!(evicted.map(|c| c.rect.x1), Some(0), "oldest goes first");
    assert_eq!(list.len(), 7);
    assert!(cap_evict(&mut list).is_none(), "under the cap nothing evicts");
}

#[test]
fn finished_and_evicted_windows_retire_their_textures() {
    let mut list: Vec<ClosingWindow> = (0..8).map(closing).collect();
    let mut retired = Vec::new();
    push_closing(&mut list, &mut retired, closing(8));
    assert_eq!((list.len(), retired.clone()), (8, vec![0]));
    list[3].done = true;
    drop_finished(&mut list, &mut retired);
    assert_eq!((list.len(), retired), (7, vec![0, 4]));
}

// textures

const KEY: TexKey = TexKey { client: 1, uid: 2 };

#[test]
fn textures_are_uploaded_when_the_content_changed() {
    let mut c = TexCache::new();
    assert!(matches!(c.demand(KEY, 8, 8, Some(1)), Demand::Allocate));
    c.allocated(KEY, 40, 8, 8, Some(1));
    assert!(matches!(c.demand(KEY, 8, 8, Some(1)), Demand::Upload { tex: 40 }), "nothing was uploaded yet");
    c.uploaded(KEY, 1);
    assert!(matches!(c.demand(KEY, 8, 8, Some(1)), Demand::Ready { tex: 40 }));
    assert!(matches!(c.demand(KEY, 8, 8, Some(2)), Demand::Upload { tex: 40 }));
    c.uploaded(KEY, 2);
    assert!(matches!(c.demand(KEY, 8, 8, Some(2)), Demand::Ready { tex: 40 }));
    assert!(matches!(c.demand(KEY, 16, 8, Some(2)), Demand::Allocate));
    assert_eq!(c.take_retired(), vec![40]);
}

fn fill() -> Item {
    Item::Fill { area: Area { x: 0, y: 0, w: 8, h: 8 }, focused: true }
}

#[test]
fn sweeping_keeps_what_is_live() {
    let mut c = TexCache::new();
    c.allocated(KEY, 40, 8, 8, Some(1));
    c.allocated(TexKey { client: 1, uid: 3 }, 41, 8, 8, Some(1));
    c.sweep(&vec![KEY]);
    assert_eq!(c.take_retired(), vec![41]);
    assert!(c.find(KEY).is_some());
    assert!(
        seize_batch(&mut c, vec![Item::Live(KEY), Item::Close], &vec![KEY], rect(0, 0, 8, 8), Style::Fade).is_none(),
        "nothing was painted"
    );
    assert!(c.find(KEY).is_some());
    let w = seize_batch(&mut c, vec![fill()], &vec![KEY], rect(0, 0, 8, 8), Style::Fade).unwrap();
    assert_eq!(w.keep, vec![40]);
    assert!(c.find(KEY).is_none());
    assert!(c.take_retired().is_empty(), "a seized texture is not retired");
}

#[test]
fn a_closing_window_takes_its_batch_along() {
    let mut c = TexCache::new();
    c.allocated(KEY, 40, 8, 8, Some(1));
    let (mut batch, mut keys) = (vec![fill(), Item::Close], vec![KEY]);
    let w = capture_closing(&mut c, &mut batch, &mut keys, rect(0, 0, 8, 8), Style::Fade).unwrap();
    assert_eq!((w.ops.len(), w.keep), (2, vec![40]));
    assert!(batch.is_empty() && keys.is_empty());
    assert!(capture_closing(&mut c, &mut batch, &mut keys, rect(0, 0, 8, 8), Style::Fade).is_none(), "only once");
}

// composing

fn surface(uid: u64) -> SurfaceNode {
    SurfaceNode {
        info: SurfaceInfo {
            client: 1,
            uid,
            mapped: true,
            size: (100, 80),
            content_gen: 1,
            buffer: Some(BufferInfo { width: 100, height: 80, dmabuf: false, uid, has_alpha: false }),
        },
        latched: Vec::new(),
        below: Vec::new(),
        above: Vec::new(),
    }
}

fn window(id: u64) -> WindowNode {
    WindowNode {
        id,
        rect: rect(10, 10, 110, 90),
        geo: (0, 0),
        fullscreen: false,
        rule_rounding: None,
        rule_shadow: None,
        alpha: FULL_ALPHA,
        solid: true,
        surface: surface(id),
        popups: None,
        animating: false,
    }
}

fn workspace(tiled: Vec<WindowNode>) -> WorkspaceNode {
    WorkspaceNode { tiled, closing: Vec::new(), fullscreen: None, floats: Vec::new(), strip_moving: false }
}

fn scene() -> Scene {
    Scene {
        lock_trees: Vec::new(),
        workspaces: vec![workspace(vec![window(2)]), workspace(Vec::new())],
        layers: Vec::new(),
        closing_layers: Vec::new(),
        switch_running: false,
        drag: None,
        pointer: None,
        focused: Some(2),
        cfg: Decor { rounding: 0, shadow: None, border: 2, float_above_fullscreen: false },
    }
}

#[test]
fn windows_are_drawn_with_their_borders() {
    let mut cache = TexCache::new();
    cache.allocated(TexKey { client: 1, uid: 2 }, 40, 100, 80, Some(1));
    cache.uploaded(TexKey { client: 1, uid: 2 }, 1);
    let d = display(vec![head("A", 1, 800, 600)]);
    let c = compose_ops(&scene(), &d, &mut LockSlot::new(), &cache, 0, CapCursor::Present, None);
    assert!(c.items.iter().any(|i| matches!(i, Item::Tex { tex: 40, .. })));
    assert_eq!(c.items.iter().filter(|i| matches!(i, Item::Fill { focused: true, .. })).count(), 4);
    assert!(live_keys(&c.items).contains(&TexKey { client: 1, uid: 2 }));
    let other = compose_ops(&scene(), &d, &mut LockSlot::new(), &cache, 0, CapCursor::Present, Some(1));
    assert!(!other.items.iter().any(|i| matches!(i, Item::Tex { .. })));
}

#[test]
fn a_window_leaves_its_last_batch_behind() {
    let mut cache = TexCache::new();
    cache.allocated(TexKey { client: 1, uid: 2 }, 40, 100, 80, Some(1));
    cache.uploaded(TexKey { client: 1, uid: 2 }, 1);
    let mut s = scene();
    s.workspaces[0].tiled.push(window(3));
    s.workspaces[0].strip_moving = true;
    let d = display(vec![head("A", 1, 800, 600)]);
    let c = compose_ops(&s, &d, &mut LockSlot::new(), &cache, 0, CapCursor::Present, None);
    let (mut batch, mut keys) = batch_of(&c.items, Owner::Window(2));
    assert_eq!(keys, vec![TexKey { client: 1, uid: 2 }]);
    assert!(batch.iter().any(|i| matches!(i, Item::Tex { tex: 40, .. })));
    assert!(!batch.iter().any(|i| matches!(i, Item::Open(_) | Item::Close)));
    assert_eq!(batch_of(&c.items, Owner::Window(9)).0.len(), 0);
    let strip = batch_of(&c.items, Owner::Strip).0;
    assert_eq!(strip.iter().filter(|i| matches!(i, Item::Open(_))).count(), 2, "batches nest");
    let cw = capture_closing(&mut cache, &mut batch, &mut keys, rect(10, 10, 110, 90), Style::Fade).unwrap();
    let mut stash = vec![cw];
    assert_eq!(replay_closing(&mut stash, &mut cache), vec![0]);
    stash[0].done = true;
    assert!(replay_closing(&mut stash, &mut cache).is_empty());
    assert_eq!(cache.take_retired(), vec![40]);
}

#[test]
fn a_window_that_painted_nothing_leaves_nothing_behind() {
    let mut cache = TexCache::new();
    let mut s = scene();
    s.workspaces[0].tiled[0].fullscreen = true;
    s.workspaces[0].tiled[0].animating = true;
    s.workspaces[0].tiled[0].surface.latched = vec![77];
    let d = display(vec![head("A", 1, 800, 600)]);
    let c = compose_ops(&s, &d, &mut LockSlot::new(), &cache, 0, CapCursor::Present, None);
    assert!(c.items.iter().any(|i| matches!(i, Item::Wanting(2))));
    let (mut batch, mut keys) = batch_of(&c.items, Owner::Window(2));
    assert!(batch.iter().all(|i| !matches!(i, Item::Wanting(_) | Item::Feedback(_) | Item::Live(_) | Item::Animating)));
    assert!(capture_closing(&mut cache, &mut batch, &mut keys, rect(10, 10, 110, 90), Style::Fade).is_none());
}

#[test]
fn frames_are_taken_from_where_their_output_lies() {
    let mut cache = TexCache::new();
    cache.allocated(TexKey { client: 1, uid: 2 }, 40, 100, 80, Some(1));
    cache.uploaded(TexKey { client: 1, uid: 2 }, 1);
    let mut d = display(vec![head("A", 1, 800, 600)]);
    let at = |d: &Display, s: &Scene| {
        let c = compose_ops(s, d, &mut LockSlot::new(), &cache, 0, CapCursor::Present, None);
        c.items.iter().find_map(|i| match i {
            Item::Tex { tex: 40, quad, .. } => Some((quad.x, quad.y)),
            _ => None,
        })
    };
    assert_eq!(at(&d, &scene()), Some((10, 10)));
    d.outputs[0].pos = (4, 3);
    assert_eq!(at(&d, &scene()), Some((6, 7)));
    let v = stage_of(&d.outputs[0], Some(2), scene().cfg);
    assert_eq!((v.pos, v.screen, v.focused), ((4, 3), rect(4, 3, 804, 603), Some(2)));
    let mut s = scene();
    s.workspaces[0].tiled.clear();
    s.drag = Some(DragIcon { surface: surface(2), off: (-2, 5) });
    assert_eq!(at(&d, &s), None, "no pointer to ride on");
    s.pointer = Some((100, 50));
    assert_eq!(at(&d, &s), Some((94, 52)));
}

#[test]
fn styles_have_their_effects() {
    let all = [Style::Fade, Style::Popin, Style::Slide, Style::SlideVert, Style::SlideFade, Style::SlideFadeVert];
    let opening = [Effect::Fade, Effect::PopIn, Effect::Slide, Effect::Still, Effect::Still, Effect::Still];
    let closing = [Effect::Fade, Effect::Shrink, Effect::Slide, Effect::Shrink, Effect::Shrink, Effect::Shrink];
    for i in 0..6 {
        assert_eq!(opening_effect(all[i]), opening[i]);
        assert_eq!(closing_effect(all[i]), closing[i]);
        assert_eq!(window_effect(Some(all[i]), false), opening[i]);
        assert_eq!(window_effect(Some(all[i]), true), Effect::Still, "fullscreen does not animate");
    }
    assert_eq!(window_effect(None, false), Effect::Still);
    assert_eq!(layer_slide(Some(Dir::Up), Some(Dir::Left)), Some(Dir::Up));
    assert_eq!(layer_slide(None, Some(Dir::Left)), Some(Dir::Left));
    assert_eq!(layer_slide(None, None), None);
}

#[test]
fn pixels_are_supplied_before_a_surface_is_drawn() {
    let d = display(vec![head("A", 1, 800, 600)]);
    let s = surface(2).info;
    let kept = Readable { shadow: Some(100 * 80 * 4), rows: true };
    let short = Readable { shadow: Some(100 * 80 * 4 - 1), rows: true };
    let mut cache = TexCache::new();
    let c = compose_ops(&scene(), &d, &mut LockSlot::new(), &cache, 0, CapCursor::Present, None);
    assert!(c.items.iter().any(|i| matches!(i, Item::Wanting(2))));
    assert_eq!(supply(&mut cache, &s, kept), Supply::Create { width: 100, height: 80, opaque: true });
    assert_eq!(supplied(&mut cache, &s, kept, None), Supply::Skip, "no memory");
    assert_eq!(supplied(&mut cache, &s, short, Some(40)), Supply::Upload { tex: 40, from: Pixels::Rows });
    assert_eq!(supply(&mut cache, &s, Readable { shadow: None, rows: false }), Supply::Skip);
    assert_eq!(supply(&mut cache, &s, kept), Supply::Upload { tex: 40, from: Pixels::Shadow });
    assert_eq!(uploaded(&mut cache, &s, false), Supply::Skip);
    assert_eq!(supply(&mut cache, &s, kept), Supply::Upload { tex: 40, from: Pixels::Shadow }, "tried again");
    assert_eq!(uploaded(&mut cache, &s, true), Supply::Ready { wait: false });
    assert_eq!(supply(&mut cache, &s, kept), Supply::Ready { wait: false });
    let c = compose_ops(&scene(), &d, &mut LockSlot::new(), &cache, 0, CapCursor::Present, None);
    assert!(!c.items.iter().any(|i| matches!(i, Item::Wanting(_))));
    assert!(c.items.iter().any(|i| matches!(i, Item::Tex { tex: 40, .. })));
}

#[test]
fn dmabufs_are_imported_once() {
    let mut s = surface(2).info;
    let none = Readable { shadow: None, rows: false };
    s.buffer = Some(BufferInfo { width: 64, height: 32, dmabuf: true, uid: 7, has_alpha: true });
    let mut cache = TexCache::new();
    assert_eq!(supply(&mut cache, &s, none), Supply::Import { width: 64, height: 32, opaque: false });
    assert_eq!(supplied(&mut cache, &s, none, Some(50)), Supply::Ready { wait: true });
    s.content_gen = 9;
    assert_eq!(supply(&mut cache, &s, none), Supply::Ready { wait: true }, "sampled in place");
    s.buffer = Some(BufferInfo { width: 65, height: 32, dmabuf: true, uid: 7, has_alpha: true });
    assert!(matches!(supply(&mut cache, &s, none), Supply::Import { width: 65, .. }));
    assert_eq!(cache.take_retired(), vec![50]);
    s.buffer = None;
    assert_eq!(supply(&mut cache, &s, none), Supply::Skip);
}

#[test]
fn short_rows_are_filled_with_zeroes() {
    assert_eq!(pack_rows(&vec![1, 2, 3, 4, 5, 6, 7, 8], 3, 2, 2), [1, 2, 4, 5]);
    assert_eq!(pack_rows(&vec![1, 2, 3, 4, 5], 4, 2, 3), [1, 2, 5, 0, 0, 0]);
    assert_eq!(pack_rows(&vec![1, 2], usize::MAX, 1, 3), [1, 0, 0]);
}

#[test]
fn only_presented_frames_claim_feedback() {
    let cache = TexCache::new();
    let d = display(vec![head("A", 1, 800, 600)]);
    let mut s = scene();
    s.workspaces[0].tiled[0].surface.latched = vec![77];
    let shown = compose_ops(&s, &d, &mut LockSlot::new(), &cache, 0, CapCursor::Present, None);
    assert!(shown.items.iter().any(|i| matches!(i, Item::Feedback(77))));
    let shot = compose_ops(&s, &d, &mut LockSlot::new(), &cache, 0, CapCursor::Always, None);
    assert!(!shot.items.iter().any(|i| matches!(i, Item::Feedback(_))));
}

/// A lock that these outputs owe a frame, with a mapped surface on one of them.
fn locked_slot(outs: Vec<&str>, uid: u64, on: &str) -> LockSlot {
    let mut out = Out::new();
    let mut slot = LockSlot::new();
    let m = SessionLockManager { id: ObjectId(60), client: 1, version: 1 };
    m.lock(&mut out, &mut slot, ObjectId(61), outs.iter().map(|n| (*n).to_owned()).collect(), false);
    let lock = slot.lock.as_mut().unwrap();
    let facts = SurfaceFacts { uid, live_role: false, other_role: None, has_buffer: false };
    lock.get_lock_surface(&mut out, ObjectId(70), ObjectId(10), ObjectId(90), Some(facts), Some(on.to_owned()), (800, 600));
    lock.surfaces[0].mapped = true;
    slot
}

#[test]
fn a_locked_screen_shows_no_windows() {
    let mut cache = TexCache::new();
    cache.allocated(TexKey { client: 1, uid: 2 }, 40, 100, 80, Some(1));
    cache.uploaded(TexKey { client: 1, uid: 2 }, 1);
    cache.allocated(TexKey { client: 1, uid: 9 }, 41, 100, 80, Some(1));
    cache.uploaded(TexKey { client: 1, uid: 9 }, 1);
    let d = display(vec![head("A", 1, 800, 600)]);
    let mut s = scene();
    s.lock_trees = vec![surface(9)];
    let mut slot = locked_slot(vec!["A"], 9, "A");
    let c = compose_ops(&s, &d, &mut slot, &cache, 0, CapCursor::Present, None);
    assert!(!c.items.iter().any(|i| matches!(i, Item::Tex { tex: 40, .. })));
    assert!(c.items.iter().any(|i| matches!(i, Item::Tex { tex: 41, .. })));
    let mut d = d;
    compose(&s, &mut d, &mut slot, &mut cache, 0, CapCursor::Never, Some(1));
    assert_eq!(cache.take_retired(), vec![40], "windows keep no texture across the lock");
}

#[test]
fn hidden_workspaces_are_composed_on_the_side() {
    let mut cache = TexCache::new();
    cache.allocated(TexKey { client: 1, uid: 2 }, 40, 100, 80, Some(1));
    cache.uploaded(TexKey { client: 1, uid: 2 }, 1);
    let mut d = display(vec![head("A", 1, 800, 600)]);
    d.outputs[0].ws = 1;
    let (slot, items) = workspace_copy(&scene(), &mut d, &mut LockSlot::new(), &vec![7, 0], &mut cache, 0).unwrap();
    assert_eq!(slot, 0, "its output is gone");
    assert!(items.iter().any(|i| matches!(i, Item::Tex { tex: 40, .. })));
    assert!(workspace_copy(&scene(), &mut d, &mut LockSlot::new(), &vec![7, 0], &mut cache, 2).is_none());
    assert!(cache.take_retired().is_empty(), "no texture is let go");
}

#[test]
fn a_finished_switch_is_reported() {
    let mut cache = TexCache::new();
    let mut d = display(vec![head("A", 1, 800, 600)]);
    let mut s = scene();
    start_ws_switch(&mut d.outputs[0], Some(Style::Slide), false, 1, 0);
    assert!(compose_ops(&s, &d, &mut LockSlot::new(), &cache, 0, CapCursor::Present, None).switch_over);
    s.switch_running = true;
    let c = compose_ops(&s, &d, &mut LockSlot::new(), &cache, 0, CapCursor::Present, None);
    assert!(!c.switch_over && c.items.iter().any(|i| matches!(i, Item::Animating)));
    assert!(c.items.iter().any(|i| matches!(i, Item::Open(Owner::SceneOut))));
    compose(&s, &mut d, &mut LockSlot::new(), &mut cache, 0, CapCursor::Present, None);
    assert!(d.outputs[0].ws_switch.is_some());
    s.switch_running = false;
    let items = compose(&s, &mut d, &mut LockSlot::new(), &mut cache, 0, CapCursor::Present, None);
    assert!(d.outputs[0].ws_switch.is_none());
    assert!(!items.iter().any(|i| matches!(i, Item::Animating)));
}

#[test]
fn borders_lie_around_the_box() {
    let mut items = Vec::new();
    push_borders((0, 0), rect(10, 10, 110, 90), 2, 0, true, &mut items);
    assert_eq!(items.len(), 4);
    for i in &items {
        match i {
            Item::Fill { area, .. } => {
                assert!(area.x >= 8 && area.y >= 8 && area.x + area.w <= 112 && area.y + area.h <= 92);
            }
            _ => panic!("a border is a fill"),
        }
    }
    let mut items = Vec::new();
    push_borders((0, 0), rect(10, 10, 110, 90), 2, 6, true, &mut items);
    assert!(matches!(items[0], Item::Border { .. }));
}

#[test]
fn boxes_slide_out_of_sight() {
    let o = head("A", 1, 800, 600);
    let r = rect(10, 20, 110, 120);
    assert_eq!(slide_offset(&o, r, Some(Dir::Left)).0, -110);
    assert_eq!(slide_offset(&o, r, Some(Dir::Right)).0, 790);
    assert_eq!(slide_offset(&o, r, Some(Dir::Up)).1, -120);
    assert_eq!(slide_offset(&o, r, Some(Dir::Down)).1, 580);
}

// cursors

#[test]
fn the_default_cursor_is_an_arrow() {
    let (px, w, h) = default_cursor();
    assert_eq!((w, h), (12, 19));
    assert_eq!(px.len(), 12 * 19 * 4);
    assert_eq!(px[3], 255, "the tip is opaque");
}

#[test]
fn software_cursors_are_drawn_on_their_output() {
    let mut d = display(vec![head("A", 1, 800, 600)]);
    assert!(draw_sw_cursor(&d, 0, Some((50, 60)), false).is_none(), "the plane shows it");
    d.set_software_cursor(true);
    d.set_cursor_image(CursorImage { pixels: 7, width: 24, height: 24, hot: (4, 5) });
    let c = draw_sw_cursor(&d, 0, Some((50, 60)), false).unwrap();
    assert_eq!((c.x, c.y, c.width, c.height), (46, 55, 24, 24));
    assert!(c.rebuild);
    d.cursor_uploaded(0);
    assert!(!draw_sw_cursor(&d, 0, Some((50, 60)), false).unwrap().rebuild, "uploaded once");
    d.set_cursor_image(CursorImage { pixels: 8, width: 24, height: 24, hot: (4, 5) });
    assert!(draw_sw_cursor(&d, 0, Some((50, 60)), false).unwrap().rebuild, "another picture");
    d.set_cursor_hidden(true);
    assert!(draw_sw_cursor(&d, 0, Some((50, 60)), false).is_none());
}

fn with_plane() -> Display {
    let mut o = head("A", 1, 800, 600);
    o.cursor.plane = Some(CursorPlane { enabled: true, x: 0, y: 0, hotspot: (2, 3), image: None, commit: false });
    display(vec![o])
}

#[test]
fn planes_follow_the_pointer() {
    let mut d = with_plane();
    assert!(!d.move_cursor(50, 60), "the plane moves without a redraw");
    let p = d.outputs[0].cursor.plane.unwrap();
    assert!(p.enabled);
    assert_eq!((p.x, p.y), (48, 57));
    d.move_cursor(900, 60);
    assert!(!d.outputs[0].cursor.plane.unwrap().enabled, "the pointer left");
}

#[test]
fn planes_stay_dark_while_the_vt_leaves() {
    let mut d = with_plane();
    d.prepare_vt_switch();
    assert!(d.outputs[0].cursor.locked);
    assert!(!d.outputs[0].cursor.plane.unwrap().enabled);
    d.move_cursor(50, 60);
    d.set_cursor_image(CursorImage { pixels: 7, width: 24, height: 24, hot: (4, 5) });
    d.set_cursor_hidden(false);
    assert!(!d.outputs[0].cursor.plane.unwrap().enabled, "locked out");
    assert!(d.vt_rearm(0));
    assert!(!d.outputs[0].cursor.locked);
    assert!(d.outputs[0].cursor.plane.unwrap().enabled);
    assert!(!d.vt_rearm(0), "nothing to unlock");
}

#[test]
fn the_theme_comes_back_after_a_client_cursor() {
    let mut d = with_plane();
    seed_cursor(&mut d.outputs[0], Some(CursorImage { pixels: 3, width: 16, height: 16, hot: (1, 1) }), 9);
    d.set_cursor_image(CursorImage { pixels: 7, width: 24, height: 24, hot: (4, 5) });
    assert_eq!(d.outputs[0].cursor.plane.unwrap().image, Some((7, 24, 24)));
    d.set_cursor_default();
    assert_eq!(d.outputs[0].cursor.plane.unwrap().image, Some((3, 16, 16)));
}

#[test]
fn outputs_describe_themselves() {
    let mut outs = vec![head("A", 1, 800, 600), head("B", 2, 1024, 768)];
    tile(&mut outs);
    let d = display(outs);
    let g = d.output_global(&d.outputs[1]);
    assert_eq!((g.name.as_str(), g.x, g.y, g.width, g.height, g.refresh_mhz), ("B", 800, 0, 1024, 768, 60_000));
}

#[test]
fn rectangles_meet_in_their_common_part() {
    assert_eq!(Rect::new_sized(1, 2, 3, 4), Some(rect(1, 2, 4, 6)));
    assert_eq!(Rect::new_sized(1, 2, -3, 4), None);
    assert_eq!(Rect::new_sized(i32::MAX, 0, 1, 1), None);
    assert_eq!(rect(0, 0, 10, 10).intersect(rect(5, 6, 20, 20)), rect(5, 6, 10, 10));
    assert!(rect(0, 0, 4, 4).intersect(rect(5, 5, 9, 9)).is_empty());
}

// captures

#[test]
fn captures_are_cut_from_the_frame() {
    // 4x2 pixels, each of its own value
    let full: Vec<u8> = (0..8u8).flat_map(|p| [p; 4]).collect();
    assert_eq!(screencopy(&full, 4, 2, rect(1, 0, 3, 2)), [1, 1, 1, 1, 2, 2, 2, 2, 5, 5, 5, 5, 6, 6, 6, 6]);
    let o = head("A", 1, 4, 2);
    assert_eq!(window_capture(&full, &o, rect(2, 1, 4, 2)), [6, 6, 6, 6, 7, 7, 7, 7]);
    assert_eq!(capture_slot(&vec![0, 1, 0], 2, 1), Some(1));
    assert_eq!(capture_slot(&vec![0, 1, 0], 2, 9), None);
    assert!(screencopy(&full, 4, 2, rect(1, 0, 1, 2)).is_empty());
    // a window that hangs off the left edge is black there
    assert_eq!(window_capture(&full, &o, rect(-1, 0, 1, 1)), [0, 0, 0, 0, 0, 0, 0, 0]);
    assert_eq!(window_capture(&full, &o, rect(3, 1, 5, 2)), [7, 7, 7, 7, 0, 0, 0, 0]);
}

#[test]
fn a_captured_window_is_drawn_bare() {
    let mut cache = TexCache::new();
    cache.allocated(TexKey { client: 1, uid: 2 }, 40, 100, 80, Some(1));
    cache.uploaded(TexKey { client: 1, uid: 2 }, 1);
    let outs = vec![head("A", 1, 800, 600)];
    let r = rect(10, 10, 110, 90);
    let (slot, items) = window_plan(&vec![0], Some(0), &outs, &surface(2), r, (0, 0), &cache).unwrap();
    assert_eq!(slot, 0);
    assert!(items.iter().any(|i| matches!(i, Item::Tex { tex: 40, alpha: FULL_ALPHA, .. })));
    assert!(!items.iter().any(|i| matches!(i, Item::Fill { .. } | Item::Border { .. })));
    assert!(window_plan(&vec![0], None, &outs, &surface(2), r, (0, 0), &cache).is_none());
    assert!(window_plan(&vec![0], Some(0), &outs, &surface(2), rect(1, 1, 1, 9), (0, 0), &cache).is_none());
}
