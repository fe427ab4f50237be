use carrot::protocol::events::{Event, Out};
use carrot::protocol::idle::{
    note_activity, tick, IdleInhibitManager, IdleInhibitor, IdleNotification, IdleNotifier, IdleNotifierGlobal, IdleState,
    Pause,
};
use carrot::protocol::screencopy::{CopyJob, Region, ScreencopyManager, ERR_INVALID_BUFFER, WL_SHM_XRGB8888};
use carrot::protocol::shm::{
    shm_format_by_wl, AttachedBuffer, BufferAsk, BufferStorage, DmabufImage, DmabufPlane, Format, WlBuffer, WlShm,
    WlShmGlobal, WlShmPool, INVALID_FD, INVALID_FORMAT, INVALID_STRIDE,
};
use carrot::protocol::tearing::{SurfaceTearing, TearingManager, HINT_ASYNC};
use carrot::protocol::ObjectId;
use carrot::rect::Rect;
use carrot::sighand::{mask, stops, SIGINT, SIGTERM};

fn count(out: &Out, object: ObjectId, opcode: u32) -> usize {
    out.sent.iter().filter(|s| s.object == object && s.event.opcode() == opcode).count()
}

fn error_codes(out: &Out) -> Vec<u32> {
    let mut codes = Vec::new();
    for s in &out.sent {
        if let Event::Error { code, .. } = &s.event {
            codes.push(*code);
        }
    }
    codes
}

const DISPLAY: ObjectId = ObjectId(1);

fn argb() -> Format {
    Format { drm: 0x3432_5241, wl_id: Some(0), bytes_per_pixel: 4, alpha: true }
}

fn xrgb() -> Format {
    Format { drm: 0x3432_5258, wl_id: Some(1), bytes_per_pixel: 4, alpha: false }
}

fn formats() -> Vec<Format> {
    vec![argb(), xrgb()]
}

fn shm_buffer(id: u32, w: i32, h: i32) -> WlBuffer {
    WlBuffer {
        id: ObjectId(id),
        uid: id as u64,
        client: 1,
        rect: Rect::new_sized_saturating(0, 0, w, h),
        format: xrgb(),
        stride: w * 4,
        storage: BufferStorage::Shm { offset: 0, sealed: false },
        destroyed: false,
    }
}

// idle

#[test]
fn timeouts_idle_and_activity_resumes() {
    let mut idle = IdleState::new();
    let mut out = Out::new();
    let n = ObjectId(70);
    idle.notifications.push(IdleNotification { id: n, client: 1, timeout_ms: 0, idled: false });
    let nothing = Vec::new();
    // zero timeout: the first tick idles it
    tick(&mut idle, &mut out, 5, &nothing);
    assert!(idle.notifications[0].idled);
    assert_eq!(count(&out, n, 0), 1, "idled");
    // input resumes it
    let wake = note_activity(&mut idle, &mut out, 6, false);
    assert!(!wake);
    assert!(!idle.notifications[0].idled);
    assert_eq!(count(&out, n, 1), 1, "resumed");
}

#[test]
fn a_mapped_inhibitor_blocks_idling() {
    let surface = 10u64;
    let mut idle = IdleState::new();
    let mut out = Out::new();
    idle.inhibitors.push(IdleInhibitor { id: ObjectId(71), client: 1, surface });
    idle.notifications.push(IdleNotification { id: ObjectId(70), client: 1, timeout_ms: 0, idled: false });
    tick(&mut idle, &mut out, 5, &vec![surface]);
    assert!(!idle.notifications[0].idled, "visible inhibitor holds the screen awake");
    // the surface goes away: inhibition lapses
    idle.last_activity = 0;
    tick(&mut idle, &mut out, 6, &Vec::new());
    assert!(idle.notifications[0].idled);
}

#[test]
fn idling_waits_for_its_timeout_and_happens_once() {
    let mut idle = IdleState::new();
    let mut out = Out::new();
    let notifier = IdleNotifierGlobal.bind(1, ObjectId(60), 1);
    notifier.get_idle_notification(&mut idle, ObjectId(70), 100);
    note_activity(&mut idle, &mut out, 1_000_000, false);
    let nothing = Vec::new();
    tick(&mut idle, &mut out, 100_999_999, &nothing);
    assert_eq!(count(&out, ObjectId(70), 0), 0);
    assert_eq!(idle.pause(100_999_999), Pause::Until(1_100_999_999));
    tick(&mut idle, &mut out, 101_000_000, &nothing);
    tick(&mut idle, &mut out, 102_000_000, &nothing);
    assert_eq!(count(&out, ObjectId(70), 0), 1);
    assert_eq!(IdleState::new().pause(102_000_000), Pause::Kick);
    // a dark screen wakes on input
    assert!(note_activity(&mut idle, &mut out, 103_000_000, true));
}

#[test]
fn a_gone_client_leaves_no_idle_objects() {
    let mut idle = IdleState::new();
    let mut out = Out::new();
    IdleNotifier { id: ObjectId(60), client: 1, version: 1 }.get_idle_notification(&mut idle, ObjectId(70), 5);
    IdleNotifier { id: ObjectId(60), client: 2, version: 1 }.get_idle_notification(&mut idle, ObjectId(70), 5);
    let mgr = IdleInhibitManager { id: ObjectId(61), client: 1, version: 1 };
    mgr.create_inhibitor(&mut idle, &mut out, ObjectId(71), ObjectId(10), Some(4));
    mgr.create_inhibitor(&mut idle, &mut out, ObjectId(72), ObjectId(11), None);
    assert_eq!(count(&out, DISPLAY, 0), 1, "no such surface");
    assert_eq!(idle.inhibitors.len(), 1);
    idle.drop_client(1);
    assert_eq!(idle.notifications.len(), 1);
    assert_eq!(idle.notifications[0].client, 2);
    assert!(idle.inhibitors.is_empty());
}

// signals

#[test]
fn the_mask_covers_exactly_int_and_term() {
    assert_eq!(mask(), (1 << 1) | (1 << 14));
}

#[test]
fn only_the_two_signals_stop() {
    for signo in 0..64u32 {
        let mut record = signo.to_ne_bytes().to_vec();
        record.resize(128, 0);
        assert_eq!(stops(&record, 128), signo == SIGINT || signo == SIGTERM);
        assert!(!stops(&record, 3), "a short read says nothing");
    }
}

// tearing

fn tearing_setup() -> (Out, SurfaceTearing, TearingManager) {
    (Out::new(), SurfaceTearing::new(), TearingManager { id: ObjectId(60), client: 1, version: 1 })
}

#[test]
fn the_hint_is_double_buffered_and_destroy_reverts() {
    let (mut out, mut s, mgr) = tearing_setup();
    let ctl = mgr.get_tearing_control(&mut out, ObjectId(61), ObjectId(10), true, &mut s).unwrap();
    ctl.set_presentation_hint(&mut out, &mut s, HINT_ASYNC);
    // pending until the commit
    assert!(!s.current);
    s.commit();
    assert!(s.current);
    ctl.destroy(&mut s);
    assert!(s.current, "revert waits for the commit");
    s.commit();
    assert!(!s.current);
    assert!(!s.control);
    let ctl = mgr.get_tearing_control(&mut out, ObjectId(61), ObjectId(10), true, &mut s).unwrap();
    ctl.break_loops(&mut s);
    assert!(!s.control, "a gone client frees the surface");
}

#[test]
fn one_control_per_surface() {
    let (mut out, mut s, mgr) = tearing_setup();
    mgr.get_tearing_control(&mut out, ObjectId(61), ObjectId(10), true, &mut s);
    assert_eq!(count(&out, DISPLAY, 0), 0);
    mgr.get_tearing_control(&mut out, ObjectId(62), ObjectId(10), true, &mut s);
    // the second control is a protocol error
    assert_eq!(count(&out, DISPLAY, 0), 1);
}

// shared memory

fn pool(size: usize) -> WlShmPool {
    WlShmPool { id: ObjectId(50), client: 1, requested: size, sealed: false }
}

fn ask(id: u32, width: i32, height: i32, stride: i32, format: u32) -> BufferAsk {
    BufferAsk { id: ObjectId(id), offset: 0, width, height, stride, format }
}

#[test]
fn create_buffer_validation() {
    let mut out = Out::new();
    let p = pool(4096);
    // stride too small for width
    assert!(p.create_buffer(&mut out, &formats(), ask(60, 10, 10, 8, 0), 1).is_none());
    // out of bounds
    assert!(p.create_buffer(&mut out, &formats(), ask(61, 40, 40, 160, 0), 2).is_none());
    // unknown format
    assert!(p.create_buffer(&mut out, &formats(), ask(62, 2, 2, 8, 0xdeadbeef), 3).is_none());
    // three protocol errors on the display object
    assert_eq!(count(&out, DISPLAY, 0), 3);
    assert_eq!(error_codes(&out), vec![INVALID_STRIDE, INVALID_STRIDE, INVALID_FORMAT]);
}

#[test]
fn valid_buffer_is_tracked() {
    let mut out = Out::new();
    let buf = pool(4096).create_buffer(&mut out, &formats(), ask(60, 16, 16, 64, 1), 9).unwrap();
    assert_eq!(buf.id, ObjectId(60));
    assert_eq!(buf.rect.width(), 16);
    assert_eq!(count(&out, DISPLAY, 0), 0);
}

#[test]
fn pools_only_grow() {
    let mut p = pool(4096);
    assert!(p.resize(2048, Ok(false)).is_err());
    assert!(p.resize(8192, Ok(false)).is_ok());
    assert_eq!(p.requested, 8192);
}

#[test]
fn pools_want_a_size_and_memory() {
    let mut out = Out::new();
    let shm = WlShm { id: ObjectId(40), client: 1, version: 1 };
    assert!(shm.create_pool(&mut out, ObjectId(50), 0, Ok(false)).is_none());
    assert!(shm.create_pool(&mut out, ObjectId(51), 64, Err("no such device".to_owned())).is_none());
    assert_eq!(error_codes(&out), vec![INVALID_STRIDE, INVALID_FD]);
    let p = shm.create_pool(&mut out, ObjectId(52), 64, Ok(true)).unwrap();
    assert_eq!(p.requested, 64);
    assert!(p.sealed);
}

#[test]
fn every_format_is_announced_on_bind() {
    let mut out = Out::new();
    WlShmGlobal.bind(&mut out, 1, ObjectId(40), 1, &formats());
    assert_eq!(count(&out, ObjectId(40), 0), 2);
    assert!(matches!(out.sent[0].event, Event::ShmFormat { format: 0 }));
    assert!(matches!(out.sent[1].event, Event::ShmFormat { format: 1 }));
    assert_eq!(shm_format_by_wl(&formats(), 1), Some(xrgb()));
    assert_eq!(shm_format_by_wl(&formats(), 7), None);
}

#[test]
fn committed_attachments_are_released_once_let_go() {
    let mut out = Out::new();
    let mut buf = shm_buffer(20, 8, 8);
    AttachedBuffer::new(&buf).let_go(&buf, &mut out);
    assert_eq!(out.sent.len(), 0, "never committed");
    let mut a = AttachedBuffer::new(&buf);
    a.commit();
    a.let_go(&buf, &mut out);
    assert_eq!(count(&out, ObjectId(20), 0), 1);
    let mut a = AttachedBuffer::new(&buf);
    a.commit();
    buf.destroy();
    a.let_go(&buf, &mut out);
    assert_eq!(out.sent.len(), 1, "a destroyed buffer hears nothing");
}

#[test]
fn imported_buffers_have_no_shared_memory() {
    let mut buf = shm_buffer(20, 8, 8);
    assert_eq!(buf.shm_access(), Some(0));
    assert_eq!(buf.shm_sealed_pool(), None);
    assert!(buf.dmabuf().is_none());
    buf.storage = BufferStorage::Dmabuf(DmabufImage { planes: vec![DmabufPlane { fd: 5, offset: 0, stride: 32 }], modifier: 0 });
    assert_eq!(buf.shm_access(), None);
    assert_eq!(buf.shm_write_target(), None);
    assert_eq!(buf.dmabuf().unwrap().fence_fd(), Some(5));
}

// screencopy

fn copier(version: u32) -> ScreencopyManager {
    ScreencopyManager { id: ObjectId(70), client: 1, version }
}

#[test]
fn headless_frames_fail_cleanly() {
    let mut out = Out::new();
    copier(1).capture_output(&mut out, ObjectId(71), None, 0);
    // no display: failed, never a buffer advertisement
    assert_eq!(count(&out, ObjectId(71), 3), 1, "failed");
    assert_eq!(count(&out, ObjectId(71), 0), 0, "buffer");
}

#[test]
fn a_region_is_cut_to_the_output() {
    let mut out = Out::new();
    let f = copier(3).capture_output_region(
        &mut out,
        ObjectId(71),
        Some((0, 100, 50)),
        Region { x: 90, y: -5, w: 40, h: 20 },
        1,
    );
    assert_eq!(f.rect, Rect { x1: 90, y1: 0, x2: 100, y2: 15 });
    assert!(f.overlay_cursor);
    assert!(matches!(
        out.sent[0].event,
        Event::CopyBuffer { format: WL_SHM_XRGB8888, width: 10, height: 15, stride: 40 }
    ));
    assert_eq!(count(&out, ObjectId(71), 6), 1, "buffer_done");
}

#[test]
fn a_frame_is_copied_once_into_a_fitting_buffer() {
    let mut out = Out::new();
    let mut f = copier(3).capture_output(&mut out, ObjectId(71), Some((2, 8, 4)), 0);
    let small = shm_buffer(20, 4, 4);
    assert!(f.copy(&mut out, ObjectId(20), Some(&small)).is_none());
    assert_eq!(error_codes(&out), vec![ERR_INVALID_BUFFER]);

    let mut f = copier(3).capture_output(&mut out, ObjectId(72), Some((2, 8, 4)), 0);
    let fits = shm_buffer(21, 8, 4);
    let job: CopyJob = f.copy(&mut out, ObjectId(21), Some(&fits)).unwrap();
    assert_eq!((job.slot, job.stride), (2, 32));
    let rows = job.rows();
    assert_eq!(rows.len(), 4);
    assert_eq!((rows[1].from, rows[1].len, rows[1].to), (32, 32, 32));
    f.copied(&mut out, true, false, 1_500_000_000);
    assert!(matches!(out.sent.last().unwrap().event, Event::CopyReady { sec_hi: 0, sec_lo: 1, nsec: 500_000_000 }));
    assert!(f.copy(&mut out, ObjectId(21), Some(&fits)).is_none(), "already used");
}
