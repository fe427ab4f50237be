use carrot::output::cursor::HeadCursor;
use carrot::output::Output;
use carrot::protocol::events::{Event, Out};
use carrot::protocol::session_lock::{
    active, compose_locked, drop_client, locked, output_presented, output_rect, output_removed, output_resized, surface_at,
    BufferChange, Given, LockOutcome, LockSlot, SessionLockManager, COMMIT_BEFORE_FIRST_ACK, DIMENSIONS_MISMATCH,
    DUPLICATE_OUTPUT, INVALID_DESTROY, INVALID_SERIAL, INVALID_UNLOCK, NULL_BUFFER, ROLE,
};
use carrot::protocol::{ObjectId, SurfaceFacts};
use carrot::rect::Rect;

const ERR: ObjectId = ObjectId(1);
const EV_LOCKED: u32 = 0;
const EV_FINISHED: u32 = 1;
const CLIENT: u32 = 1;
const HEADLESS: (u32, u32) = (800, 600);

fn count(out: &Out, object: ObjectId, opcode: u32) -> usize {
    out.sent.iter().filter(|s| s.object == object && s.event.opcode() == opcode).count()
}

fn last_code(out: &Out) -> u32 {
    for s in out.sent.iter().rev() {
        if let Event::Error { code, .. } = &s.event {
            return *code;
        }
    }
    panic!("no error was sent")
}

fn manager() -> SessionLockManager {
    SessionLockManager { id: ObjectId(60), client: CLIENT, version: 1 }
}

fn surface(uid: u64) -> Option<SurfaceFacts> {
    Some(SurfaceFacts { uid, live_role: false, other_role: None, has_buffer: false })
}

fn head(name: &str, x: i32) -> Output {
    Output {
        uid: 1,
        name: name.to_owned(),
        conn: 1,
        width: 800,
        height: 600,
        index: 0,
        global_name: 0,
        pos: (x, 0),
        ws: 0,
        usable: Rect { x1: 0, y1: 0, x2: 800, y2: 600 },
        vrefresh: None,
        connected: true,
        dumb: false,
        front: 0,
        fbs: (0, 0),
        paused: false,
        flip_pending: false,
        anim_pending: false,
        ws_switch: None,
        cursor: HeadCursor {
            locked: false,
            client_hidden: false,
            theme: None,
            plane: None,
            rearm: false,
            generation: 0,
            textured: false,
        },
    }
}

/// A held lock with nothing on glass, and its first surface on `TEST-1`.
fn with_surface() -> (Out, LockSlot) {
    let mut out = Out::new();
    let mut slot = LockSlot::new();
    manager().lock(&mut out, &mut slot, ObjectId(61), Vec::new(), false);
    let lock = slot.lock.as_mut().unwrap();
    let given = lock.get_lock_surface(
        &mut out,
        ObjectId(70),
        ObjectId(10),
        ObjectId(90),
        surface(10),
        Some("TEST-1".to_owned()),
        HEADLESS,
    );
    assert!(matches!(given, Given::Made));
    (out, slot)
}

#[test]
fn locks_headless_and_a_second_lock_finishes() {
    let mut out = Out::new();
    let mut slot = LockSlot::new();
    manager().lock(&mut out, &mut slot, ObjectId(61), Vec::new(), false);
    assert!(locked(&slot));
    // no outputs on glass: locked arrives immediately
    assert_eq!(count(&out, ObjectId(61), EV_LOCKED), 1);
    // the slot is taken; a second attempt is finished on arrival
    let second = manager().lock(&mut out, &mut slot, ObjectId(62), Vec::new(), false);
    assert!(matches!(second, LockOutcome::Finished(_)));
    assert_eq!(count(&out, ObjectId(62), EV_FINISHED), 1);
    assert_eq!(active(&slot).unwrap().id, ObjectId(61));
}

#[test]
fn lock_surface_maps_takes_input_and_unlock_restores() {
    let (mut out, mut slot) = with_surface();
    assert_eq!(count(&out, ObjectId(70), 0), 1, "initial configure");
    let holder = slot.holder();
    let ls = &mut slot.lock.as_mut().unwrap().surfaces[0];
    ls.ack_configure(&mut out, 1);
    assert!(ls.commit_requested(&mut out, BufferChange::Attached { w: 800, h: 600 }, false));
    // the lock surface owns the keyboard
    assert!(ls.after_apply(true, holder));
    assert!(ls.mapped);
    // and it is the only hittable thing
    let hit = surface_at(&slot, &Vec::new(), HEADLESS, 10, 10);
    assert_eq!(hit, Some((10, 10, 10)));
    assert!(slot.unlock_and_destroy(&mut out, CLIENT, ObjectId(61)));
    assert!(!locked(&slot));
    assert_eq!(surface_at(&slot, &Vec::new(), HEADLESS, 10, 10), None);
}

#[test]
fn commit_before_first_ack_is_a_protocol_error() {
    let (mut out, mut slot) = with_surface();
    let ls = &slot.lock.as_mut().unwrap().surfaces[0];
    assert!(!ls.commit_requested(&mut out, BufferChange::Attached { w: 800, h: 600 }, false));
    assert_eq!(count(&out, ERR, 0), 1);
    assert_eq!(last_code(&out), COMMIT_BEFORE_FIRST_ACK);
}

#[test]
fn a_wrong_size_buffer_is_a_protocol_error() {
    let (mut out, mut slot) = with_surface();
    let ls = &mut slot.lock.as_mut().unwrap().surfaces[0];
    ls.ack_configure(&mut out, 1);
    assert!(!ls.commit_requested(&mut out, BufferChange::Attached { w: 64, h: 64 }, false));
    assert_eq!(count(&out, ERR, 0), 1);
    assert_eq!(last_code(&out), DIMENSIONS_MISMATCH);
    assert!(!ls.mapped);
    assert_eq!(surface_at(&slot, &Vec::new(), HEADLESS, 10, 10), None);
}

#[test]
fn a_dead_locker_keeps_the_session_locked_and_can_be_replaced() {
    let mut out = Out::new();
    let mut slot = LockSlot::new();
    manager().lock(&mut out, &mut slot, ObjectId(61), Vec::new(), false);
    assert!(locked(&slot));
    drop_client(&mut slot, CLIENT);
    assert!(locked(&slot), "a crashed locker must not unlock the session");
    assert!(active(&slot).unwrap().holder_dead);
    // the next lock takes the slot over so the locker can restart
    manager().lock(&mut out, &mut slot, ObjectId(63), Vec::new(), false);
    assert_eq!(active(&slot).unwrap().id, ObjectId(63));
    assert_eq!(count(&out, ObjectId(63), EV_LOCKED), 1);
}

#[test]
fn duplicate_output_is_a_protocol_error() {
    let (mut out, mut slot) = with_surface();
    let lock = slot.lock.as_mut().unwrap();
    let given = lock.get_lock_surface(
        &mut out,
        ObjectId(71),
        ObjectId(11),
        ObjectId(90),
        surface(11),
        Some("TEST-1".to_owned()),
        HEADLESS,
    );
    assert!(matches!(given, Given::Refused | Given::RoleOnly));
    assert_eq!(count(&out, ERR, 0), 1);
    assert_eq!(last_code(&out), DUPLICATE_OUTPUT);
}

#[test]
fn locked_waits_until_every_output_showed_it() {
    let mut out = Out::new();
    let mut slot = LockSlot::new();
    let held = manager().lock(&mut out, &mut slot, ObjectId(61), vec!["A".to_owned(), "B".to_owned()], true);
    assert!(matches!(held, LockOutcome::Held { wake: true }));
    assert_eq!(count(&out, ObjectId(61), EV_LOCKED), 0);
    // a flip of an output that was not composed locked does not count
    output_presented(&mut slot, &mut out, "A");
    assert_eq!(compose_locked(&mut slot, "A"), None);
    output_presented(&mut slot, &mut out, "A");
    assert_eq!(count(&out, ObjectId(61), EV_LOCKED), 0);
    // an output that goes away is no longer waited for
    output_removed(&mut slot, &mut out, "B");
    assert_eq!(count(&out, ObjectId(61), EV_LOCKED), 1);
}

#[test]
fn unlocking_too_early_and_destroying_while_locked_are_errors() {
    let mut out = Out::new();
    let mut slot = LockSlot::new();
    manager().lock(&mut out, &mut slot, ObjectId(61), vec!["A".to_owned()], false);
    assert!(!slot.unlock_and_destroy(&mut out, CLIENT, ObjectId(61)));
    assert_eq!(last_code(&out), INVALID_UNLOCK);
    output_removed(&mut slot, &mut out, "A");
    assert!(!slot.destroy(&mut out, CLIENT, ObjectId(61)));
    assert_eq!(last_code(&out), INVALID_DESTROY);
    assert!(locked(&slot));
}

#[test]
fn lock_surfaces_keep_to_their_configures() {
    let (mut out, mut slot) = with_surface();
    output_resized(&mut slot, &mut out, "TEST-1", (400, 300));
    assert_eq!(count(&out, ObjectId(70), 0), 2);
    let ls = &mut slot.lock.as_mut().unwrap().surfaces[0];
    ls.ack_configure(&mut out, 2);
    assert_eq!(ls.acked_size, (400, 300));
    assert!(!ls.commit_requested(&mut out, BufferChange::Detached, true));
    assert_eq!(last_code(&out), NULL_BUFFER);
    let n = out.sent.len();
    ls.ack_configure(&mut out, 1);
    assert_eq!((ls.acked, out.sent.len()), (2, n), "an older serial is ignored");
    ls.ack_configure(&mut out, 3);
    assert_eq!(last_code(&out), INVALID_SERIAL);
}

#[test]
fn a_surface_with_another_role_cannot_lock() {
    let mut out = Out::new();
    let mut slot = LockSlot::new();
    manager().lock(&mut out, &mut slot, ObjectId(61), Vec::new(), false);
    let lock = slot.lock.as_mut().unwrap();
    let taken = Some(SurfaceFacts { uid: 3, live_role: false, other_role: Some("xdg_toplevel".to_owned()), has_buffer: false });
    let given = lock.get_lock_surface(
        &mut out,
        ObjectId(70),
        ObjectId(10),
        ObjectId(90),
        taken,
        Some("TEST-1".to_owned()),
        HEADLESS,
    );
    assert!(matches!(given, Given::Refused));
    assert_eq!(last_code(&out), ROLE);
}

#[test]
fn a_lock_surface_covers_its_own_output() {
    let (mut out, mut slot) = with_surface();
    let outs = vec![head("OTHER", 0), head("TEST-1", 800)];
    assert_eq!(output_rect(&outs, HEADLESS, "TEST-1"), Rect { x1: 800, y1: 0, x2: 1600, y2: 600 });
    assert_eq!(output_rect(&Vec::new(), HEADLESS, "TEST-1"), Rect { x1: 0, y1: 0, x2: 800, y2: 600 });
    let holder = slot.holder();
    let ls = &mut slot.lock.as_mut().unwrap().surfaces[0];
    ls.ack_configure(&mut out, 1);
    ls.after_apply(true, holder);
    assert_eq!(surface_at(&slot, &outs, HEADLESS, 810, 20), Some((10, 10, 20)));
    assert_eq!(surface_at(&slot, &outs, HEADLESS, 10, 20), None);
    assert_eq!(compose_locked(&mut slot, "TEST-1"), Some(10));
    slot.surface_destroyed(CLIENT, ObjectId(70));
    assert_eq!(surface_at(&slot, &outs, HEADLESS, 810, 20), None);
}
