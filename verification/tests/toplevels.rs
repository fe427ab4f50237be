use carrot::output::cursor::HeadCursor;
use carrot::output::Output;
use carrot::protocol::display::{Global, WlCallback, WlDisplay, WlRegistry};
use carrot::protocol::events::{Event, Out};
use carrot::protocol::foreign_toplevel::{
    app_id_changed, drop_client, focus_changed, output_changed, state_changed, title_changed, window_mapped,
    window_unmapped, ForeignToplevelGlobal, FtlManager, OutputBind, WindowFacts, Wish,
};
use carrot::protocol::interfaces::Interface;
use carrot::protocol::pointer_constraints::{
    Ask, ConfinedPointer, Constraint, ConstraintsManager, Kind, LockedPointer, ERR_ALREADY_CONSTRAINED, LIFETIME_ONESHOT, LIFETIME_PERSISTENT,
};
use carrot::protocol::xdg_activation::{Activation, ActivationGlobal, Target, Tokens, ERR_ALREADY_USED, TOKEN_TTL_NS};
use carrot::protocol::{Fixed, ObjectId, MIN_SERVER_ID};
use carrot::rect::Rect;

const HANDLE: ObjectId = ObjectId(MIN_SERVER_ID);

fn seq(out: &Out, from: usize) -> Vec<(u32, u32)> {
    out.sent[from..].iter().map(|s| (s.object.0, s.event.opcode())).collect()
}

fn last_code(out: &Out) -> u32 {
    for s in out.sent.iter().rev() {
        if let Event::Error { code, .. } = &s.event {
            return *code;
        }
    }
    panic!("no error was sent")
}

fn head(name: &str) -> Output {
    Output {
        uid: 1,
        name: name.to_owned(),
        conn: 1,
        width: 800,
        height: 600,
        index: 0,
        global_name: 0,
        pos: (0, 0),
        ws: 0,
        usable: Rect { x1: 0, y1: 0, x2: 800, y2: 600 },
        vrefresh: None,
        connected: true,
        dumb: false,
        front: 0,
        fbs: (0, 0),
        paused: false,
        flip_pending: false,
        anim_pending: false,
        ws_switch: None,
        cursor: HeadCursor {
            locked: false,
            client_hidden: false,
            theme: None,
            plane: None,
            rearm: false,
            generation: 0,
            textured: false,
        },
    }
}

fn window(focused: bool) -> WindowFacts {
    WindowFacts { uid: 5, title: "notes".to_owned(), app_id: "editor".to_owned(), fullscreen: false, focused, slot: 0 }
}

fn screens() -> (Vec<OutputBind>, Vec<Output>) {
    (
        vec![
            OutputBind { client: 1, id: ObjectId(9), name: "A".to_owned() },
            OutputBind { client: 2, id: ObjectId(8), name: "A".to_owned() },
            OutputBind { client: 1, id: ObjectId(7), name: "B".to_owned() },
        ],
        vec![head("A"), head("B")],
    )
}

fn watcher(out: &mut Out) -> Vec<FtlManager> {
    let (binds, outs) = screens();
    vec![ForeignToplevelGlobal.bind(out, 1, ObjectId(60), 3, &vec![window(true)], &vec![HANDLE], &binds, &outs)]
}

// events of a toplevel handle
const TITLE: u32 = 0;
const APP_ID: u32 = 1;
const OUTPUT_ENTER: u32 = 2;
const OUTPUT_LEAVE: u32 = 3;
const STATE: u32 = 4;
const DONE: u32 = 5;
const CLOSED: u32 = 6;

#[test]
fn windows_are_announced_in_one_burst() {
    let mut out = Out::new();
    watcher(&mut out);
    assert_eq!(
        seq(&out, 0),
        vec![
            (60, 0),
            (HANDLE.0, APP_ID),
            (HANDLE.0, TITLE),
            (HANDLE.0, OUTPUT_ENTER),
            (HANDLE.0, STATE),
            (HANDLE.0, DONE),
        ]
    );
    assert!(matches!(out.sent[3].event, Event::FtlOutputEnter { output: ObjectId(9) }));
    assert!(matches!(out.sent[4].event, Event::FtlState { activated: true, fullscreen: false }));
}

#[test]
fn changes_are_bursts_of_their_own() {
    let mut out = Out::new();
    let mut ms = watcher(&mut out);
    let n = out.sent.len();
    title_changed(&ms, &mut out, &window(true));
    app_id_changed(&ms, &mut out, &window(true));
    state_changed(&ms, &mut out, &window(true));
    assert_eq!(
        seq(&out, n),
        vec![
            (HANDLE.0, TITLE),
            (HANDLE.0, DONE),
            (HANDLE.0, APP_ID),
            (HANDLE.0, DONE),
            (HANDLE.0, STATE),
            (HANDLE.0, DONE),
        ]
    );
    let n = out.sent.len();
    focus_changed(&ms, &mut out, Some(&window(false)), None);
    assert_eq!(seq(&out, n), vec![(HANDLE.0, STATE), (HANDLE.0, DONE)]);
    let n = out.sent.len();
    let (binds, outs) = screens();
    let moved = WindowFacts { slot: 1, ..window(true) };
    output_changed(&mut ms, &mut out, &moved, &binds, &outs);
    assert_eq!(seq(&out, n), vec![(HANDLE.0, OUTPUT_LEAVE), (HANDLE.0, OUTPUT_ENTER), (HANDLE.0, DONE)]);
    assert_eq!(ms[0].handles[0].out_slot, 1);
}

#[test]
fn handles_outlive_their_window_inertly() {
    let mut out = Out::new();
    let mut ms = watcher(&mut out);
    let h = &ms[0].handles[0];
    assert!(matches!(h.activate(Some(2)), Some(Wish::Activate { window: 5, workspace: Some(2) })));
    assert!(matches!(h.close(), Some(Wish::Close { window: 5 })));
    assert!(matches!(h.set_fullscreen(), Some(Wish::Fullscreen { window: 5, on: true })));
    assert!(matches!(h.unset_fullscreen(), Some(Wish::Fullscreen { window: 5, on: false })));
    let n = out.sent.len();
    window_unmapped(&mut ms, &mut Vec::new(), &mut out, 5);
    assert_eq!(seq(&out, n), vec![(HANDLE.0, CLOSED)]);
    assert!(ms.iter().all(|m| m.handles.iter().all(|h| h.window.is_none())));
}

#[test]
fn a_stopped_manager_hears_of_no_new_windows() {
    let mut out = Out::new();
    let mut ms = watcher(&mut out);
    let n = out.sent.len();
    ms[0].stop(&mut out);
    assert_eq!(seq(&out, n), vec![(60, 1)], "finished");
    let (binds, outs) = screens();
    let n = out.sent.len();
    let other = WindowFacts { uid: 6, ..window(false) };
    window_mapped(&mut ms, &mut out, &other, &vec![ObjectId(HANDLE.0 + 1)], &binds, &outs);
    assert_eq!(out.sent.len(), n);
    drop_client(&mut ms, &mut Vec::new(), 1);
    assert!(ms.is_empty());
}

#[test]
fn a_new_window_reaches_every_manager() {
    let mut out = Out::new();
    let (binds, outs) = screens();
    let mut ms = watcher(&mut out);
    ms.push(ForeignToplevelGlobal.bind(&mut out, 2, ObjectId(61), 3, &Vec::new(), &Vec::new(), &binds, &outs));
    let n = out.sent.len();
    let other = WindowFacts { uid: 6, ..window(false) };
    window_mapped(&mut ms, &mut out, &other, &vec![ObjectId(HANDLE.0 + 1), HANDLE], &binds, &outs);
    assert_eq!(out.sent[n].object, ObjectId(60));
    assert!(out.sent[n..].iter().any(|s| s.client == 2 && s.object == ObjectId(61)));
    assert_eq!(ms[0].handles.len(), 2);
    assert_eq!(ms[1].handles.len(), 1);
}

// activation

fn activation() -> Activation {
    ActivationGlobal.bind(1, ObjectId(60), 1)
}

#[test]
fn a_token_works_once() {
    let mut out = Out::new();
    let mut tokens = Tokens::new();
    let mut t = activation().get_activation_token(ObjectId(61));
    t.commit(&mut out, &mut tokens, 0xbeef, 1);
    let text = "carrot-000000000000beef";
    assert!(matches!(&out.sent[0].event, Event::TokenDone { token } if token == text));
    let target = || Some(Target { window: 5, workspace: Some(1) });
    let got = activation().activate(&mut out, &mut tokens, text, ObjectId(10), true, target(), 2);
    assert!(matches!(got, Some(Target { window: 5, workspace: Some(1) })));
    assert!(activation().activate(&mut out, &mut tokens, text, ObjectId(10), true, target(), 3).is_none());
}

#[test]
fn a_committed_token_is_spent() {
    let mut out = Out::new();
    let mut tokens = Tokens::new();
    let mut t = activation().get_activation_token(ObjectId(61));
    t.commit(&mut out, &mut tokens, 1, 1);
    t.commit(&mut out, &mut tokens, 2, 2);
    assert_eq!(last_code(&out), ERR_ALREADY_USED);
    assert_eq!(tokens.live.len(), 1);
}

#[test]
fn old_tokens_are_worth_nothing() {
    let mut tokens = Tokens::new();
    let t = tokens.mint(1, 1_000);
    assert!(!tokens.redeem(t.as_str(), 1_000 + TOKEN_TTL_NS + 1));
    let t = tokens.mint(2, 2_000);
    assert!(!tokens.redeem("carrot-somebody-elses", 2_001));
    assert!(tokens.redeem(t.as_str(), 2_001));
}

// pointer constraints

fn ask(lifetime: u32) -> Ask {
    Ask {
        kind: Kind::Lock,
        id: ObjectId(61),
        surface: ObjectId(10),
        surface_found: Some(3),
        region: ObjectId(0),
        region_found: None,
        lifetime,
    }
}

#[test]
fn one_constraint_per_surface() {
    let mut out = Out::new();
    let mut cs: Vec<Constraint> = Vec::new();
    let mgr = ConstraintsManager { id: ObjectId(60), client: 1, version: 1 };
    mgr.create(&mut out, &mut cs, true, ask(LIFETIME_PERSISTENT));
    assert_eq!(cs.len(), 1);
    mgr.create(&mut out, &mut cs, true, ask(LIFETIME_ONESHOT));
    assert_eq!(cs.len(), 1);
    assert_eq!(last_code(&out), ERR_ALREADY_CONSTRAINED);
    mgr.create(&mut out, &mut cs, true, ask(7));
    assert!(matches!(&out.sent[1].event, Event::Error { message, .. } if message == "7 is not a lifetime"));
}

#[test]
fn a_oneshot_dies_when_it_ends() {
    let mut out = Out::new();
    let mut cs: Vec<Constraint> = Vec::new();
    let mgr = ConstraintsManager { id: ObjectId(60), client: 1, version: 1 };
    mgr.create(&mut out, &mut cs, true, ask(LIFETIME_ONESHOT));
    cs[0].send_active(&mut out, true);
    cs[0].send_active(&mut out, true);
    assert_eq!(seq(&out, 0), vec![(61, 0)], "locked once");
    assert!(!cs[0].dead);
    let pointer = LockedPointer { id: ObjectId(61), client: 1 };
    pointer.set_cursor_position_hint(&mut cs, Fixed(256), Fixed(512));
    cs[0].send_active(&mut out, false);
    assert_eq!(seq(&out, 1), vec![(61, 1)]);
    assert!(cs[0].dead);
    assert_eq!(cs[0].hint, Some((Fixed(256), Fixed(512))));
    pointer.set_region(&mut cs, &mut out, ObjectId(30), None);
    assert_eq!(last_code(&out), 0, "no such region");
    pointer.set_region(&mut cs, &mut out, ObjectId(30), Some(4));
    assert_eq!(cs[0].region, Some(4));
    ConfinedPointer { id: ObjectId(61), client: 2 }.set_region(&mut cs, &mut out, ObjectId(0), None);
    assert_eq!(cs[0].region, Some(4), "somebody else's object");
}

#[test]
fn a_persistent_constraint_comes_back() {
    let mut out = Out::new();
    let mut cs: Vec<Constraint> = Vec::new();
    let mgr = ConstraintsManager { id: ObjectId(60), client: 1, version: 1 };
    mgr.create(&mut out, &mut cs, true, ask(LIFETIME_PERSISTENT));
    cs[0].send_active(&mut out, true);
    cs[0].send_active(&mut out, false);
    assert!(!cs[0].dead && !cs[0].active);
    cs[0].send_active(&mut out, true);
    assert!(cs[0].active);
    assert_eq!(seq(&out, 0), vec![(61, 0), (61, 1), (61, 0)]);
}

#[test]
fn a_destroyed_constraint_frees_its_surface() {
    let mut out = Out::new();
    let mut cs: Vec<Constraint> = Vec::new();
    let mgr = ConstraintsManager { id: ObjectId(60), client: 1, version: 1 };
    mgr.create(&mut out, &mut cs, true, ask(LIFETIME_PERSISTENT));
    LockedPointer { id: ObjectId(61), client: 2 }.destroy(&mut cs);
    LockedPointer { id: ObjectId(62), client: 1 }.destroy(&mut cs);
    assert_eq!(cs.len(), 1, "somebody else's object");
    LockedPointer { id: ObjectId(61), client: 1 }.destroy(&mut cs);
    assert!(cs.is_empty());
    mgr.create(&mut out, &mut cs, true, Ask { kind: Kind::Confine, id: ObjectId(62), ..ask(LIFETIME_ONESHOT) });
    assert_eq!((cs.len(), out.sent.len()), (1, 0), "the surface was free");
    ConfinedPointer { id: ObjectId(62), client: 1 }.destroy(&mut cs);
    assert!(cs.is_empty());
    mgr.create(&mut out, &mut cs, true, ask(LIFETIME_PERSISTENT));
    LockedPointer { id: ObjectId(61), client: 1 }.break_loops(&mut cs);
    assert!(cs.is_empty());
    mgr.create(&mut out, &mut cs, true, Ask { kind: Kind::Confine, ..ask(LIFETIME_PERSISTENT) });
    ConfinedPointer { id: ObjectId(61), client: 1 }.break_loops(&mut cs);
    assert!(cs.is_empty());
}

// display and registry

#[test]
fn sync_answers_and_frees_the_id() {
    let mut out = Out::new();
    let d = WlDisplay::new(1);
    assert!(d.sync(&mut out, WlCallback { id: ObjectId(5) }, Ok(())).is_ok());
    assert!(matches!(out.sent[0].event, Event::CallbackDone { data: 0 }));
    assert!(matches!(out.sent[1].event, Event::DeleteId { id: 5 }));
    assert!(d.sync(&mut out, WlCallback { id: ObjectId(5) }, Err("taken".to_owned())).is_err());
    assert_eq!(out.sent.len(), 2);
}

#[test]
fn binding_wants_the_right_interface_and_version() {
    let r: WlRegistry = WlDisplay::new(1).get_registry(ObjectId(2));
    let globals = vec![Global { name: 3, interface: Interface::WlShm.name().to_owned(), version: 1 }];
    assert_eq!(r.bind(&globals, 3, "wl_shm", 1), Ok(0));
    assert_eq!(r.bind(&globals, 4, "wl_shm", 1), Err("global 4 does not exist".to_owned()));
    assert_eq!(r.bind(&globals, 3, "wl_seat", 1), Err("global 3 is wl_shm, not wl_seat".to_owned()));
    assert_eq!(r.bind(&globals, 3, "wl_shm", 2), Err("global 3 only supports versions 1..=1".to_owned()));
    let mut out = Out::new();
    r.send_global(&mut out, 3, "wl_shm".to_owned(), 1);
    r.send_global_remove(&mut out, 3);
    assert_eq!(seq(&out, 0), vec![(2, 0), (2, 1)]);
}
