use carrot::output::cursor::HeadCursor;
use carrot::output::scene::{SurfaceInfo, SurfaceNode};
use carrot::output::Output;
use carrot::protocol::events::{Event, Out};
use carrot::protocol::image_copy_capture::{
    content_changed, destroy_session, drop_client, output_presented, output_removed, send_ready, tree_contains, window_unmapped, Capture,
    CaptureSource, FrameStatus, IccCursorSession, IccFrame, IccManager, IccSession, LiveWindow, OutputSourceManager,
    SourceKind, Target, ToplevelSourceManager, ERR_ALREADY_CAPTURED, ERR_DUPLICATE_FRAME, ERR_DUPLICATE_SESSION,
    ERR_INVALID_BUFFER_DAMAGE, ERR_INVALID_OPTION, ERR_NO_BUFFER, OPT_PAINT_CURSORS, REASON_STOPPED, WL_SHM_XRGB8888,
};
use carrot::protocol::shm::{BufferStorage, Format, WlBuffer};
use carrot::protocol::{ObjectId, MIN_SERVER_ID};
use carrot::rect::Rect;

const ERR: ObjectId = ObjectId(1);
const HANDLE: ObjectId = ObjectId(MIN_SERVER_ID);
const SOURCE: ObjectId = ObjectId(72);
const SESSION: ObjectId = ObjectId(73);
const FRAME: ObjectId = ObjectId(74);
const WINDOW: u64 = 30;
const SURFACE: u64 = 10;

// events of the session and of the frame
const SESSION_BUFFER_SIZE: u32 = 0;
const SESSION_SHM_FORMAT: u32 = 1;
const SESSION_DONE: u32 = 4;
const SESSION_STOPPED: u32 = 5;
const FRAME_TRANSFORM: u32 = 0;
const FRAME_DAMAGE: u32 = 1;
const FRAME_PRESENTATION_TIME: u32 = 2;
const FRAME_READY: u32 = 3;
const FRAME_FAILED: u32 = 4;

fn count(out: &Out, object: ObjectId, opcode: u32) -> usize {
    out.sent.iter().filter(|s| s.object == object && s.event.opcode() == opcode).count()
}

fn event_seq(out: &Out, from: usize) -> Vec<(u32, u32)> {
    out.sent[from..].iter().map(|s| (s.object.0, s.event.opcode())).collect()
}

fn last_code(out: &Out) -> u32 {
    for s in out.sent.iter().rev() {
        if let Event::Error { code, .. } = &s.event {
            return *code;
        }
    }
    panic!("no error was sent")
}

fn node(uid: u64) -> SurfaceNode {
    SurfaceNode {
        info: SurfaceInfo { client: 1, uid, mapped: true, size: (64, 48), content_gen: 0, buffer: None },
        latched: Vec::new(),
        below: Vec::new(),
        above: Vec::new(),
    }
}

fn windows() -> Vec<LiveWindow> {
    vec![LiveWindow { uid: WINDOW, w: 64, h: 48, tree: node(SURFACE) }]
}

fn head(name: &str) -> Output {
    Output {
        uid: 1,
        name: name.to_owned(),
        conn: 1,
        width: 320,
        height: 200,
        index: 0,
        global_name: 0,
        pos: (0, 0),
        ws: 0,
        usable: Rect { x1: 0, y1: 0, x2: 320, y2: 200 },
        vrefresh: None,
        connected: true,
        dumb: false,
        front: 0,
        fbs: (0, 0),
        paused: false,
        flip_pending: false,
        anim_pending: false,
        ws_switch: None,
        cursor: HeadCursor {
            locked: false,
            client_hidden: false,
            theme: None,
            plane: None,
            rearm: false,
            generation: 0,
            textured: false,
        },
    }
}

fn buffer(uid: u64, w: i32, h: i32) -> WlBuffer {
    WlBuffer {
        id: ObjectId(75),
        uid,
        client: 1,
        rect: Rect::new_sized_saturating(0, 0, w, h),
        format: Format { drm: 0x3432_5241, wl_id: Some(0), bytes_per_pixel: 4, alpha: true },
        stride: w * 4,
        storage: BufferStorage::Shm { offset: 0, sealed: false },
        destroyed: false,
    }
}

/// A capture source on a mapped window, and the manager.
fn setup() -> (Out, CaptureSource, IccManager) {
    let mut out = Out::new();
    let tsm = ToplevelSourceManager { id: ObjectId(70), client: 1, version: 1 };
    let source = tsm.create_source(&mut out, SOURCE, HANDLE, Some(Some(WINDOW))).unwrap();
    (out, source, IccManager { id: ObjectId(71), client: 1, version: 1 })
}

fn make_session(out: &mut Out, source: &CaptureSource, mgr: &IccManager) -> IccSession {
    mgr.create_session(out, SESSION, SOURCE, Some(source), 0, 1, &Vec::new(), &windows()).unwrap()
}

/// A frame with a buffer of the size that was advertised.
fn make_frame(out: &mut Out, sess: &mut IccSession) -> IccFrame {
    let f = sess.create_frame(out, FRAME).unwrap();
    f.attach_buffer(out, sess, ObjectId(75), Some(75));
    f
}

#[test]
fn session_bursts_constraints_then_one_done() {
    let (mut out, source, mgr) = setup();
    let before = out.sent.len();
    make_session(&mut out, &source, &mgr);
    assert_eq!(
        event_seq(&out, before),
        vec![
            (SESSION.0, SESSION_SHM_FORMAT),
            (SESSION.0, SESSION_SHM_FORMAT),
            (SESSION.0, SESSION_BUFFER_SIZE),
            (SESSION.0, SESSION_DONE),
        ]
    );
    // XRGB8888 leads: clients that allocate the first format get the safe one
    assert!(matches!(out.sent[before].event, Event::SessionShmFormat { format: WL_SHM_XRGB8888 }));
    assert_eq!(count(&out, SESSION, SESSION_STOPPED), 0);
}

#[test]
fn dead_source_session_stops_instead() {
    let (mut out, source, mgr) = setup();
    let before = out.sent.len();
    // the window was unmapped
    let sess = mgr.create_session(&mut out, SESSION, SOURCE, Some(&source), 0, 1, &Vec::new(), &Vec::new()).unwrap();
    assert_eq!(event_seq(&out, before), vec![(SESSION.0, SESSION_STOPPED)]);
    assert_eq!(count(&out, SESSION, SESSION_DONE), 0);
    assert!(sess.stopped);
}

#[test]
fn unknown_option_bits_are_an_error() {
    let (mut out, source, mgr) = setup();
    let sess = mgr.create_session(&mut out, SESSION, SOURCE, Some(&source), 2, 1, &Vec::new(), &windows());
    assert!(sess.is_none());
    assert_eq!(count(&out, ERR, 0), 1);
    assert_eq!(last_code(&out), ERR_INVALID_OPTION);
}

#[test]
fn second_frame_is_duplicate_frame() {
    let (mut out, source, mgr) = setup();
    let mut sess = make_session(&mut out, &source, &mgr);
    assert!(sess.create_frame(&mut out, FRAME).is_some());
    assert!(sess.create_frame(&mut out, ObjectId(76)).is_none());
    assert_eq!(count(&out, ERR, 0), 1);
    assert_eq!(last_code(&out), ERR_DUPLICATE_FRAME);
}

#[test]
fn capture_without_a_buffer_is_no_buffer() {
    let (mut out, source, mgr) = setup();
    let mut sess = make_session(&mut out, &source, &mgr);
    let f = sess.create_frame(&mut out, FRAME).unwrap();
    assert!(matches!(f.capture(&mut out, &mut sess), Capture::Over));
    assert_eq!(count(&out, ERR, 0), 1);
    assert_eq!(last_code(&out), ERR_NO_BUFFER);
}

#[test]
fn bad_damage_rects_are_an_error() {
    let (mut out, source, mgr) = setup();
    let mut sess = make_session(&mut out, &source, &mgr);
    let f = make_frame(&mut out, &mut sess);
    f.damage_buffer(&mut out, &sess, 0, 0, 16, 16);
    assert_eq!(count(&out, ERR, 0), 0, "valid rect passes");
    f.damage_buffer(&mut out, &sess, -1, 0, 16, 16);
    assert_eq!(count(&out, ERR, 0), 1);
    assert_eq!(last_code(&out), ERR_INVALID_BUFFER_DAMAGE);
}

#[test]
fn stopped_precedes_the_frames_failure() {
    let (mut out, source, mgr) = setup();
    let mut sess = make_session(&mut out, &source, &mgr);
    let f = make_frame(&mut out, &mut sess);
    // park the capture until the content changes
    sess.force = false;
    assert!(matches!(f.capture(&mut out, &mut sess), Capture::Waits));
    assert!(sess.status == FrameStatus::Capturing);
    let before = out.sent.len();
    let mut list = vec![sess];
    window_unmapped(&mut list, &mut out, WINDOW);
    assert_eq!(event_seq(&out, before), vec![(SESSION.0, SESSION_STOPPED), (FRAME.0, FRAME_FAILED)]);
    assert!(matches!(out.sent.last().unwrap().event, Event::FrameFailed { reason: REASON_STOPPED }));
    assert!(list[0].stopped);
}

#[test]
fn a_destroyed_session_leaves_the_list() {
    let (mut out, source, mgr) = setup();
    let mut sess = make_session(&mut out, &source, &mgr);
    let f = make_frame(&mut out, &mut sess);
    sess.force = false;
    f.capture(&mut out, &mut sess);
    let other = mgr.create_session(&mut out, ObjectId(80), SOURCE, Some(&source), 0, 2, &Vec::new(), &windows()).unwrap();
    let mut list = vec![other, sess];
    let before = out.sent.len();
    let mut gone = destroy_session(&mut list, 1, &mut out);
    assert_eq!(event_seq(&out, before), vec![(FRAME.0, FRAME_FAILED)], "its capture cannot survive");
    assert_eq!((list.len(), list[0].id), (1, ObjectId(80)));
    assert!(gone.stopped && gone.status == FrameStatus::Failed);
    f.destroy(&mut gone);
    assert_eq!(gone.frame, None, "the frame object did");
    let before = out.sent.len();
    destroy_session(&mut list, 0, &mut out);
    assert_eq!((list.len(), out.sent.len()), (0, before), "nothing was in flight");
}

#[test]
fn requests_after_capture_are_already_captured() {
    let (mut out, source, mgr) = setup();
    let mut sess = make_session(&mut out, &source, &mgr);
    let f = make_frame(&mut out, &mut sess);
    let mut list = vec![sess];
    window_unmapped(&mut list, &mut out, WINDOW);
    // capture on a stopped session fails, never a protocol error
    let before = out.sent.len();
    f.capture(&mut out, &mut list[0]);
    assert_eq!(event_seq(&out, before), vec![(FRAME.0, FRAME_FAILED)]);
    assert_eq!(count(&out, ERR, 0), 0);
    // the frame is spent now: everything else is already_captured
    f.attach_buffer(&mut out, &mut list[0], ObjectId(75), Some(75));
    assert_eq!(count(&out, ERR, 0), 1);
    assert_eq!(last_code(&out), ERR_ALREADY_CAPTURED);
}

#[test]
fn frame_destroy_frees_the_session_slot() {
    let (mut out, source, mgr) = setup();
    let mut sess = make_session(&mut out, &source, &mgr);
    let f = make_frame(&mut out, &mut sess);
    f.destroy(&mut sess);
    assert!(sess.frame.is_none());
    assert!(sess.buffer.is_none());
    assert!(sess.status == FrameStatus::Unused);
    // the slot is free for the next frame
    assert!(sess.create_frame(&mut out, ObjectId(76)).is_some());
    assert_eq!(count(&out, ERR, 0), 0);
}

#[test]
fn ready_metadata_is_ordered() {
    let mut out = Out::new();
    send_ready(&mut out, 1, ObjectId(99), 64, 64, 7_000_000_009);
    assert_eq!(
        event_seq(&out, 0),
        vec![
            (99, FRAME_TRANSFORM),
            (99, FRAME_DAMAGE),
            (99, FRAME_PRESENTATION_TIME),
            (99, FRAME_READY),
        ]
    );
    assert!(matches!(out.sent[1].event, Event::FrameDamage { x: 0, y: 0, width: 64, height: 64 }));
    assert!(matches!(out.sent[2].event, Event::FramePresented { sec_hi: 0, sec_lo: 7, nsec: 9 }));
}

#[test]
fn cursor_sessions_stop_immediately() {
    let (mut out, source, mgr) = setup();
    let made = mgr.create_pointer_cursor_session(&mut out, ObjectId(80), SOURCE, Some(&source), ObjectId(71), true);
    assert!(made.is_some());
    assert_eq!(count(&out, ERR, 0), 0);
    let mut cs =
        IccCursorSession { id: ObjectId(81), client: 1, version: 1, source: source.kind.snapshot(), have_session: false };
    let before = out.sent.len();
    assert!(cs.get_capture_session(&mut out, ObjectId(82), 5).is_some());
    // stopped at birth, never constraints
    assert_eq!(event_seq(&out, before), vec![(82, SESSION_STOPPED)]);
    // a second capture session is a protocol error
    assert!(cs.get_capture_session(&mut out, ObjectId(83), 6).is_none());
    assert_eq!(count(&out, ERR, 0), 1);
    assert_eq!(last_code(&out), ERR_DUPLICATE_SESSION);
}

#[test]
fn a_forced_capture_is_served_at_once() {
    let (mut out, source, mgr) = setup();
    let mut sess = mgr
        .create_session(&mut out, SESSION, SOURCE, Some(&source), OPT_PAINT_CURSORS, 1, &Vec::new(), &windows())
        .unwrap();
    assert_eq!(sess.current_size(&Vec::new(), &windows()), Some((64, 48)));
    let f = make_frame(&mut out, &mut sess);
    assert!(matches!(f.capture(&mut out, &mut sess), Capture::Serve));
    let buf = buffer(75, 64, 48);
    let job = sess.service(&mut out, &Vec::new(), &windows(), Some(&buf)).unwrap();
    assert!(matches!(job.target, Target::Win(WINDOW)));
    assert!(job.paint_cursors);
    let rows = job.rows(64 * 48 * 4);
    assert_eq!(rows.len(), 48);
    assert_eq!((rows[2].from, rows[2].len, rows[2].to), (512, 256, 512));
    let before = out.sent.len();
    sess.served(&mut out, true, (64, 48), 0);
    assert_eq!(event_seq(&out, before).last(), Some(&(FRAME.0, FRAME_READY)));
    assert!(sess.status == FrameStatus::Ready);
}

#[test]
fn a_resized_source_restates_the_constraints_once() {
    let (mut out, source, mgr) = setup();
    let mut sess = make_session(&mut out, &source, &mgr);
    let f = make_frame(&mut out, &mut sess);
    f.capture(&mut out, &mut sess);
    let shrunk = vec![LiveWindow { uid: WINDOW, w: 32, h: 100, tree: node(SURFACE) }];
    let buf = buffer(75, 64, 48);
    let before = out.sent.len();
    // the copy still completes, cropped to the common part
    let job = sess.service(&mut out, &Vec::new(), &shrunk, Some(&buf)).unwrap();
    assert_eq!((job.w, job.h), (32, 48));
    assert_eq!(count(&out, SESSION, SESSION_BUFFER_SIZE), 2);
    assert_eq!(event_seq(&out, before).last(), Some(&(SESSION.0, SESSION_DONE)));
    // not again until the client attaches a buffer
    let before = out.sent.len();
    assert!(sess.service(&mut out, &Vec::new(), &shrunk, Some(&buf)).is_some());
    assert_eq!(out.sent.len(), before);
}

#[test]
fn a_frame_fails_when_its_buffer_is_of_no_use() {
    let (mut out, source, mgr) = setup();
    let mut sess = make_session(&mut out, &source, &mgr);
    let f = make_frame(&mut out, &mut sess);
    f.capture(&mut out, &mut sess);
    let mut buf = buffer(75, 64, 48);
    buf.destroy();
    let before = out.sent.len();
    assert!(sess.service(&mut out, &Vec::new(), &windows(), Some(&buf)).is_none());
    assert_eq!(event_seq(&out, before), vec![(FRAME.0, FRAME_FAILED)]);
    assert!(sess.status == FrameStatus::Failed);
}

#[test]
fn outputs_and_windows_wake_their_own_sessions() {
    let (mut out, source, mgr) = setup();
    let osm = OutputSourceManager { id: ObjectId(69), client: 2, version: 1 };
    let screen = osm.create_source(&mut out, ObjectId(90), ObjectId(9), Some("A".to_owned())).unwrap();
    let outs = vec![head("A")];
    let mgr2 = IccManager { id: ObjectId(91), client: 2, version: 1 };
    let mut a = mgr2.create_session(&mut out, ObjectId(92), ObjectId(90), Some(&screen), 0, 2, &outs, &windows()).unwrap();
    let mut w = mgr.create_session(&mut out, SESSION, SOURCE, Some(&source), 0, 1, &outs, &windows()).unwrap();
    for s in [&mut a, &mut w] {
        let f = s.create_frame(&mut out, FRAME).unwrap();
        f.attach_buffer(&mut out, s, ObjectId(75), Some(75));
        s.force = false;
        f.capture(&mut out, s);
    }
    let mut list = vec![a, w];
    assert_eq!(output_presented(&list, "A"), vec![0]);
    assert_eq!(output_presented(&list, "B"), Vec::<usize>::new());
    assert_eq!(content_changed(&list, &windows(), SURFACE), vec![1]);
    assert_eq!(content_changed(&list, &windows(), 77), Vec::<usize>::new());
    assert!(tree_contains(&node(SURFACE), SURFACE));
    output_removed(&mut list, &mut out, "A");
    assert!(list[0].stopped);
    assert!(!list[1].stopped);
    drop_client(&mut list, 1);
    assert!(list.iter().all(|s| s.client == 2));
}

#[test]
fn a_source_forgets_a_window_that_closed() {
    let mut kind = SourceKind::Toplevel(Some(WINDOW));
    assert!(kind.resolve(&Vec::new(), &windows()).is_some());
    kind.let_go();
    assert!(kind.resolve(&Vec::new(), &windows()).is_none());
    let screen = SourceKind::Output("A".to_owned());
    let r = screen.resolve(&vec![head("A")], &Vec::new()).unwrap();
    assert!(matches!(r.target, Target::Out(0)));
    assert_eq!((r.w, r.h), (320, 200));
}
