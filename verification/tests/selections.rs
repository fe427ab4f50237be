use carrot::protocol::data_control::{DataControl, DataControlManager, World};
use carrot::protocol::data_device::{
    receive, DataDevices, Drag, DragAsk, DragTarget, IconFacts, WlDataDevice, WlDataDeviceManager, WlDataSource, DND_ASK,
    DND_COPY, DND_MOVE,
};
use carrot::protocol::events::{Event, Out};
use carrot::protocol::primary_selection::{PrimaryDevices, PrimaryManager};
use carrot::protocol::selection::{Provider, SelectionSource};
use carrot::protocol::{Fixed, ObjectId, MIN_SERVER_ID};

const CLIENT: u32 = 1;
const OFFER: ObjectId = ObjectId(MIN_SERVER_ID);
const TEXT: &str = "text/plain;charset=utf-8";

fn count(out: &Out, object: ObjectId, opcode: u32) -> usize {
    out.sent.iter().filter(|s| s.object == object && s.event.opcode() == opcode).count()
}

/// Fresh server ids, from the given one on.
fn fresh(from: u32) -> Vec<ObjectId> {
    (0..8).map(|i| ObjectId(MIN_SERVER_ID + from + i)).collect()
}

/// A client with a device and a source, whose surface has the keyboard.
struct Desk {
    out: Out,
    sources: Vec<SelectionSource>,
    data: DataDevices,
    control: DataControl,
    dev: WlDataDevice,
    src: WlDataSource,
}

fn setup() -> Desk {
    let mgr = WlDataDeviceManager { id: ObjectId(60), client: CLIENT, version: 3 };
    let mut sources = Vec::new();
    let mut data = DataDevices::new();
    let dev = mgr.get_data_device(&mut data, ObjectId(61));
    let src = mgr.create_data_source(&mut sources, ObjectId(62), 7);
    src.offer(&mut sources, TEXT.to_owned());
    Desk { out: Out::new(), sources, data, control: DataControl::new(), dev, src }
}

impl Desk {
    fn select(&mut self, source: ObjectId, ids: u32) -> bool {
        self.dev.set_selection(
            &mut self.out,
            source,
            &self.sources,
            &mut self.data,
            Some(CLIENT),
            &mut self.control,
            &fresh(ids),
        )
    }

    fn enter(&mut self, x: i32, y: i32) {
        let t = DragTarget { surface: 10, client: CLIENT, id: ObjectId(10) };
        self.data.dnd_enter(t, 5, Fixed::from_int(x), Fixed::from_int(y), &self.sources, &fresh(0), &mut self.out);
    }
}

#[test]
fn selection_reaches_the_focused_client() {
    let mut d = setup();
    d.select(ObjectId(62), 0);
    assert_eq!(count(&d.out, ObjectId(61), 0), 1, "data_offer");
    assert_eq!(count(&d.out, OFFER, 0), 1, "offer(mime)");
    assert_eq!(count(&d.out, ObjectId(61), 5), 1, "selection");
}

#[test]
fn receive_pipes_to_the_source() {
    let mut d = setup();
    d.select(ObjectId(62), 0);
    let offered = d.data.offers.iter().find(|o| o.id == OFFER).unwrap().source;
    assert!(receive(&d.sources, &d.data, None, offered, TEXT.to_owned(), 9, &mut d.out));
    assert_eq!(count(&d.out, ObjectId(62), 1), 1, "source.send");
}

#[test]
fn replacing_the_selection_cancels_the_old_source() {
    let mut d = setup();
    d.select(ObjectId(62), 0);
    d.select(ObjectId(0), 1);
    assert_eq!(count(&d.out, ObjectId(62), 2), 1, "cancelled");
    // two selection events: the offer, then the null
    assert_eq!(count(&d.out, ObjectId(61), 5), 2);
    assert!(d.data.selection.is_none());
}

#[test]
fn dnd_enter_accept_drop_finish() {
    let mut d = setup();
    d.src.set_actions(&mut d.sources, DND_COPY | DND_MOVE);
    d.data.begin_drag_session(Drag::new(3, CLIENT, Some(7), None));
    d.enter(5, 7);
    let dev = ObjectId(61);
    let src = ObjectId(62);
    assert_eq!(count(&d.out, dev, 0), 1, "data_offer");
    assert_eq!(count(&d.out, OFFER, 0), 1, "offer(mime)");
    assert_eq!(count(&d.out, OFFER, 1), 1, "source_actions");
    assert_eq!(count(&d.out, dev, 1), 1, "enter");
    // the target accepts and negotiates copy
    let k = d.data.offers.iter().position(|o| o.id == OFFER).unwrap();
    d.data.accept(k, Some(TEXT.to_owned()), &d.sources, &mut d.out);
    d.data.set_actions(k, DND_COPY, DND_COPY, &d.sources, &mut d.out);
    assert_eq!(count(&d.out, src, 0), 1, "source.target");
    assert_eq!(count(&d.out, src, 5), 1, "source.action");
    assert_eq!(count(&d.out, OFFER, 2), 1, "offer.action");
    assert_eq!(d.data.drag().unwrap().action, DND_COPY);
    // grab release: drop, then the target finishes
    d.data.dnd_finish_session(false, &d.sources, &mut d.out);
    assert_eq!(count(&d.out, dev, 4), 1, "drop");
    assert_eq!(count(&d.out, src, 3), 1, "dnd_drop_performed");
    assert!(d.data.drag().is_none());
    d.data.finish(k, &d.sources, &mut d.out);
    assert_eq!(count(&d.out, src, 4), 1, "dnd_finished");
}

#[test]
fn an_unaccepted_drag_cancels_on_release() {
    let mut d = setup();
    d.src.set_actions(&mut d.sources, DND_COPY);
    d.data.begin_drag_session(Drag::new(3, CLIENT, Some(7), None));
    d.enter(0, 0);
    d.data.dnd_finish_session(false, &d.sources, &mut d.out);
    assert_eq!(count(&d.out, ObjectId(61), 2), 1, "leave");
    assert_eq!(count(&d.out, ObjectId(61), 4), 0, "no drop");
    assert_eq!(count(&d.out, ObjectId(62), 2), 1, "cancelled");
    assert!(d.data.drag().is_none());
}

#[test]
fn leaving_the_target_detaches_its_offers() {
    let mut d = setup();
    d.data.begin_drag_session(Drag::new(3, CLIENT, Some(7), None));
    d.enter(0, 0);
    let k = d.data.offers.iter().position(|o| o.id == OFFER).unwrap();
    d.data.dnd_leave(false, &mut d.out);
    assert!(d.data.drag().unwrap().target().is_none());
    assert!(d.data.offers[k].drag.is_none());
    // a stale accept after leave is inert
    d.data.accept(k, Some("text/plain".to_owned()), &d.sources, &mut d.out);
    assert!(!d.data.drag().unwrap().accepted);
}

#[test]
fn a_dyn_provider_installs_without_xwayland() {
    let mut d = setup();
    d.sources.push(SelectionSource {
        uid: 40,
        provider: Provider::Foreign,
        client: 0,
        id: ObjectId(0),
        version: 0,
        mimes: vec!["text/plain".to_owned()],
        dnd_actions: 0,
        registered: false,
    });
    d.data.set_selection_source(Some(40), &d.sources, Some(CLIENT), &mut d.control, &fresh(0), &mut d.out);
    assert!(d.data.selection.is_some());
    // the focused client got an offer for the provider's type
    assert_eq!(count(&d.out, ObjectId(61), 0), 1, "data_offer");
    assert_eq!(count(&d.out, ObjectId(61), 5), 1, "selection");
}

#[test]
fn windowless_copy_sets_the_selection_and_watchers_hear_it() {
    let mut out = Out::new();
    let mut sources = Vec::new();
    let mut w = World { data: DataDevices::new(), primary: PrimaryDevices::new(), control: DataControl::new() };
    let mgr = DataControlManager { id: ObjectId(60), client: CLIENT, version: 2 };
    // the watcher device exists first
    let dev =
        mgr.get_data_device(&mut w.control, &sources, None, None, ObjectId(61), (fresh(0)[0], fresh(0)[1]), &mut out);
    // empty clipboard: null selection and null primary on creation
    assert_eq!(count(&out, dev.id, 1), 1, "initial selection");
    assert_eq!(count(&out, dev.id, 3), 1, "initial primary");
    // windowless copy: source, type and set_selection, no toplevel anywhere
    let src = mgr.create_data_source(&mut sources, ObjectId(62), 7);
    src.offer(&mut sources, TEXT.to_owned());
    assert!(dev.set_selection(&mut out, ObjectId(62), &sources, &mut w, None, &fresh(0)));
    assert_eq!(w.data.current_source(), Some(7));
    // the watcher got a fresh offer with the type and a selection
    assert_eq!(count(&out, dev.id, 0), 1, "data_offer");
    assert_eq!(count(&out, OFFER, 0), 1, "offer(mime)");
    assert_eq!(count(&out, dev.id, 1), 2, "selection again");
    // receive pipes through to the source
    let offered = w.control.offers.iter().find(|o| o.id == OFFER).unwrap().source;
    assert!(receive(&sources, &w.data, w.primary.current_source(), offered, TEXT.to_owned(), 9, &mut out));
    assert_eq!(count(&out, src.id, 0), 1, "source.send");
    // destroying the live source clears the selection
    src.destroy(&mut sources, &mut w, None, &mut out);
    assert!(w.data.current_source().is_none());
}

#[test]
fn data_of_a_gone_source_is_not_received() {
    let mut d = setup();
    d.src.destroy(&mut d.sources, &mut d.data, None, false, &mut d.out);
    let before = d.out.sent.len();
    assert!(!receive(&d.sources, &d.data, None, 7, TEXT.to_owned(), 9, &mut d.out));
    assert_eq!(d.out.sent.len(), before);
}

#[test]
fn the_preferred_action_wins_where_both_sides_allow_it() {
    let mut d = setup();
    d.src.set_actions(&mut d.sources, DND_COPY | DND_MOVE);
    d.data.begin_drag_session(Drag::new(3, CLIENT, Some(7), None));
    d.enter(0, 0);
    let k = d.data.offers.iter().position(|o| o.id == OFFER).unwrap();
    d.data.set_actions(k, DND_COPY | DND_MOVE | DND_ASK, DND_MOVE, &d.sources, &mut d.out);
    assert_eq!(d.data.drag().unwrap().action, DND_MOVE);
    d.data.set_actions(k, DND_COPY | DND_ASK, DND_ASK, &d.sources, &mut d.out);
    assert_eq!(d.data.drag().unwrap().action, DND_COPY, "the source does not ask");
    d.data.set_actions(k, DND_ASK, DND_ASK, &d.sources, &mut d.out);
    assert_eq!(d.data.drag().unwrap().action, 0);
}

#[test]
fn a_drag_wants_a_grab_and_a_free_icon() {
    let mut d = setup();
    let ask = |grab_valid, other_role| DragAsk {
        origin: ObjectId(10),
        origin_found: true,
        grab_valid,
        source: ObjectId(62),
        icon: ObjectId(11),
        icon_found: Some(IconFacts { surface: 11, other_role }),
    };
    let dev = d.dev;
    assert!(dev.start_drag(&mut d.out, &d.sources, ask(false, None), 3).is_none());
    assert_eq!(count(&d.out, ObjectId(1), 0), 0, "a stale grab is no error");
    assert!(dev.start_drag(&mut d.out, &d.sources, ask(true, Some("xdg_toplevel".to_owned())), 3).is_none());
    assert_eq!(count(&d.out, ObjectId(1), 0), 1, "the icon has a role");
    let drag = dev.start_drag(&mut d.out, &d.sources, ask(true, None), 3).unwrap();
    assert_eq!(drag.source, Some(7));
    d.data.begin_drag_session(drag);
    d.data.icon_committed(CLIENT, ObjectId(11), (3, -2));
    assert!(d.data.icon_shown(CLIENT, ObjectId(11)));
    assert_eq!(d.data.drag().unwrap().icon_off, (3, -2));
    assert!(d.data.icon_destroyed(CLIENT, ObjectId(11)));
    assert!(!d.data.icon_shown(CLIENT, ObjectId(11)));
}

#[test]
fn a_drag_moves_over_its_target_only() {
    let mut d = setup();
    d.data.begin_drag_session(Drag::new(3, CLIENT, Some(7), None));
    d.data.dnd_motion(false, 1, Fixed(256), Fixed(512), &mut d.out);
    assert_eq!(d.out.sent.len(), 0, "no target yet");
    d.enter(0, 0);
    d.data.dnd_motion(false, 2, Fixed(256), Fixed(512), &mut d.out);
    assert!(matches!(d.out.sent.last().unwrap().event, Event::DndMotion { time: 2, x: Fixed(256), y: Fixed(512) }));
    let n = d.out.sent.len();
    d.data.dnd_motion(true, 3, Fixed(0), Fixed(0), &mut d.out);
    assert_eq!(d.out.sent.len(), n, "the client of the target is gone");
}

#[test]
fn a_gone_client_takes_its_devices_and_selection_along() {
    let mut d = setup();
    d.select(ObjectId(62), 0);
    d.data.drop_client(&mut d.sources, CLIENT, true, &mut d.out);
    assert!(d.data.devices.is_empty());
    assert!(d.data.current_source().is_none());
}

#[test]
fn the_primary_selection_stands_on_its_own() {
    let mut out = Out::new();
    let mut sources = Vec::new();
    let mut primary = PrimaryDevices::new();
    let mut control = DataControl::new();
    let mgr = PrimaryManager { id: ObjectId(60), client: CLIENT, version: 1 };
    let dev = mgr.get_device(&mut primary, ObjectId(61));
    let src = mgr.create_source(&mut sources, ObjectId(62), 7);
    src.offer(&mut sources, TEXT.to_owned());
    assert!(dev.set_selection(&mut out, ObjectId(62), &sources, &mut primary, Some(CLIENT), &mut control, &fresh(0)));
    assert_eq!(primary.current_source(), Some(7));
    assert_eq!(count(&out, ObjectId(61), 0), 1, "data_offer");
    assert_eq!(count(&out, OFFER, 0), 1, "offer(mime)");
    assert_eq!(count(&out, ObjectId(61), 1), 1, "selection");
    dev.set_selection(&mut out, ObjectId(0), &sources, &mut primary, Some(CLIENT), &mut control, &fresh(1));
    assert_eq!(count(&out, ObjectId(62), 1), 1, "cancelled");
    assert_eq!(primary.current_source(), None);
}

#[test]
fn destroying_a_dropped_offer_cancels_the_transfer() {
    let mut d = setup();
    d.src.set_actions(&mut d.sources, DND_COPY);
    d.data.begin_drag_session(Drag::new(3, CLIENT, Some(7), None));
    d.enter(0, 0);
    let k = d.data.offers.iter().position(|o| o.id == OFFER).unwrap();
    d.data.accept(k, Some(TEXT.to_owned()), &d.sources, &mut d.out);
    d.data.set_actions(k, DND_COPY, DND_COPY, &d.sources, &mut d.out);
    d.data.dnd_finish_session(false, &d.sources, &mut d.out);
    assert_eq!(count(&d.out, ObjectId(62), 2), 0);
    d.data.destroy_offer(k, &d.sources, &mut d.out);
    assert_eq!(count(&d.out, ObjectId(62), 2), 1, "cancelled");
}

#[test]
fn providers_tell_where_they_come_from() {
    let d = setup();
    assert!(!d.sources[0].is_x11());
}

#[test]
fn an_unknown_source_leaves_the_selection_alone() {
    let mut d = setup();
    d.select(ObjectId(62), 0);
    assert!(!d.select(ObjectId(63), 4));
    assert_eq!(d.data.current_source(), Some(7));
}
