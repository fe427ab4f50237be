use carrot::protocol::events::{Event, Out};
use carrot::protocol::{ObjectId, SurfaceFacts};
use carrot::rect::Rect;
use carrot::shell::layer::{
    apply_kb_lock, arrange, from_surface, kb_lock, place, Effects, Fallbacks, Keyboard, LayerExt, LayerGiven, LayerShell, LayerState,
    Layers, Margin, ALREADY_CONSTRUCTED, A_BOTTOM, A_LEFT, A_RIGHT, A_TOP, BACKGROUND, INVALID_ANCHOR,
    INVALID_EXCLUSIVE_EDGE, INVALID_KI, INVALID_LAYER, INVALID_SIZE, INVALID_SURFACE_STATE, KI_EXCLUSIVE, KI_ON_DEMAND,
    OVERLAY, ROLE, TOP,
};

const ERR: ObjectId = ObjectId(1);

fn count(out: &Out, object: ObjectId, opcode: u32) -> usize {
    out.sent.iter().filter(|s| s.object == object && s.event.opcode() == opcode).count()
}

/// The cited object and the code of the first error.
fn first_error(out: &Out) -> Option<(u32, u32)> {
    for s in &out.sent {
        if let Event::Error { object, code, .. } = &s.event {
            return Some((object.0, *code));
        }
    }
    None
}

fn rect(x1: i32, y1: i32, x2: i32, y2: i32) -> Rect {
    Rect { x1, y1, x2, y2 }
}

/// A headless session of that size.
fn glass() -> Layers {
    let whole = rect(0, 0, 800, 600);
    Layers { list: Vec::new(), rects: vec![whole], usable: vec![whole], extent: whole, queue: Vec::new() }
}

fn shell() -> LayerShell {
    LayerShell { id: ObjectId(90), client: 1, version: 5 }
}

fn plain(uid: u32) -> SurfaceFacts {
    SurfaceFacts { uid: uid as u64, live_role: false, other_role: None, has_buffer: false }
}

/// A layer surface `lid` on surface `sid`; its place in the list.
fn mk_layer(ls: &mut Layers, out: &mut Out, sid: u32, lid: u32, layer: u32) {
    match shell().get_layer_surface(out, ObjectId(lid), lid as u64, ObjectId(sid), Some(plain(sid)), ObjectId(0), None, 0, layer) {
        LayerGiven::Made(l) => ls.list.push(l),
        _ => panic!("no layer surface was made"),
    }
}

/// Where a layer surface stands in the list.
fn at(ls: &Layers, lid: u32) -> usize {
    ls.list.iter().position(|l| l.id == ObjectId(lid)).unwrap()
}

/// A commit of its surface, with a buffer attached or not.
fn commit(ls: &mut Layers, out: &mut Out, lid: u32, attached: bool) -> Effects {
    let k = at(ls, lid);
    if !ls.list[k].commit_requested(out, attached) {
        return Effects { rearranged: false, relayout: false, output: None, left_dead: false, dismiss: false };
    }
    ls.list[k].before_apply(out);
    ls.after_apply(k, attached)
}

fn flush_configures(ls: &mut Layers, out: &mut Out) {
    while !ls.queue.is_empty() {
        let uid = ls.queue.remove(0);
        if let Some(k) = ls.list.iter().position(|l| l.uid == uid) {
            ls.flush_configure(k, out);
        }
    }
}

/// The cycle of configure, acknowledgement and commit once the state is staged.
fn map_cycle(ls: &mut Layers, out: &mut Out, lid: u32) -> Effects {
    commit(ls, out, lid, false);
    flush_configures(ls, out);
    let k = at(ls, lid);
    let serial = ls.list[k].last_sent;
    ls.list[k].ack_configure(out, serial);
    commit(ls, out, lid, true)
}

/// Anchored to the top and both sides, with a height and a zone; then mapped.
fn map_bar(ls: &mut Layers, out: &mut Out, lid: u32, height: u32, zone: i32) -> Effects {
    let k = at(ls, lid);
    ls.list[k].set_anchor(out, 1 | 4 | 8);
    ls.list[k].set_size(0, height);
    ls.list[k].set_exclusive_zone(zone);
    map_cycle(ls, out, lid)
}

/// A dock of 40 pixels on the left edge.
fn map_dock(ls: &mut Layers, out: &mut Out, lid: u32) {
    let k = at(ls, lid);
    ls.list[k].set_anchor(out, 1 | 2 | 4);
    ls.list[k].set_size(40, 0);
    ls.list[k].set_exclusive_zone(40);
    map_cycle(ls, out, lid);
}

fn where_is(ls: &Layers, lid: u32) -> Rect {
    ls.list[at(ls, lid)].rect
}

/// The mapped layer surface under a point, topmost first.
fn under(ls: &Layers, x: i32, y: i32) -> Option<u64> {
    ls.list.iter().rev().find(|l| l.mapped() && l.rect.contains(x, y)).map(|l| l.surface)
}

#[test]
fn bare_commit_is_invalid() {
    let (mut ls, mut out) = (glass(), Out::new());
    mk_layer(&mut ls, &mut out, 10, 20, TOP);
    // defaults: size 0x0 with no anchors
    commit(&mut ls, &mut out, 20, false);
    assert_eq!(count(&out, ERR, 0), 1);
}

#[test]
fn same_edge_bars_stack_and_shrink_the_tiling_area() {
    let (mut ls, mut out) = (glass(), Out::new());
    mk_layer(&mut ls, &mut out, 10, 20, TOP);
    map_bar(&mut ls, &mut out, 20, 30, 30);
    assert!(ls.list[at(&ls, 20)].mapped());
    assert_eq!(where_is(&ls, 20), rect(0, 0, 800, 30));
    assert_eq!(ls.usable[0], rect(0, 30, 800, 600));

    mk_layer(&mut ls, &mut out, 11, 21, TOP);
    map_bar(&mut ls, &mut out, 21, 24, 24);
    // the second bar arranges inside what the first left over
    assert_eq!(where_is(&ls, 21), rect(0, 30, 800, 54));
    assert_eq!(ls.usable[0], rect(0, 54, 800, 600));
    assert_eq!(ls.usable_of(0).y1, 54);

    // unmapping the first gives the space back and resets its state
    commit(&mut ls, &mut out, 20, false);
    let first = &ls.list[at(&ls, 20)];
    assert!(!first.mapped());
    assert_eq!(first.current.anchor, 0);
    assert_eq!(ls.usable[0], rect(0, 24, 800, 600));
}

#[test]
fn mapping_a_bar_under_the_cursor_repicks_pointer_focus() {
    let (mut ls, mut out) = (glass(), Out::new());
    // the pointer is parked where the bar is about to appear
    assert_eq!(under(&ls, 30, 10), None);
    mk_layer(&mut ls, &mut out, 10, 20, TOP);
    let e = map_bar(&mut ls, &mut out, 20, 30, 30);
    // no motion happened; the map alone must have the focus picked anew
    assert!(e.rearranged);
    assert_eq!(under(&ls, 30, 10), Some(10));
    // and unmapping hands it back
    let e = commit(&mut ls, &mut out, 20, false);
    assert!(e.rearranged);
    assert_eq!(under(&ls, 30, 10), None);
}

#[test]
fn identical_configures_are_deduped() {
    let (mut ls, mut out) = (glass(), Out::new());
    mk_layer(&mut ls, &mut out, 10, 20, TOP);
    map_bar(&mut ls, &mut out, 20, 30, 30);
    // the map scheduled another one; nothing changed, so only the first went out
    flush_configures(&mut ls, &mut out);
    commit(&mut ls, &mut out, 20, true);
    flush_configures(&mut ls, &mut out);
    assert_eq!(count(&out, ObjectId(20), 0), 1);
    assert_eq!(count(&out, ERR, 0), 0);
}

#[test]
fn exclusive_top_layer_pins_the_keyboard() {
    let (mut ls, mut out) = (glass(), Out::new());
    let nobody = || Fallbacks { under_cursor: None, tiled: None, floating: None };
    mk_layer(&mut ls, &mut out, 10, 20, OVERLAY);
    let k = at(&ls, 20);
    ls.list[k].set_keyboard_interactivity(&mut out, KI_EXCLUSIVE);
    map_bar(&mut ls, &mut out, 20, 40, 0);
    assert_eq!(apply_kb_lock(&ls.list, Some(false), nobody()), Keyboard::Goes(Some(10)));
    // unmap releases the lock
    commit(&mut ls, &mut out, 20, false);
    assert!(kb_lock(&ls.list).is_none());
    assert_eq!(apply_kb_lock(&ls.list, Some(true), nobody()), Keyboard::Goes(None));
}

#[test]
fn output_loss_closes_the_bar_and_returns_its_zone() {
    let (mut ls, mut out) = (glass(), Out::new());
    mk_layer(&mut ls, &mut out, 10, 20, TOP);
    map_bar(&mut ls, &mut out, 20, 30, 30);
    assert_eq!(ls.usable[0], rect(0, 30, 800, 600));
    ls.close_for_output_loss(0, &mut out, false);
    ls.close_for_output_loss(0, &mut out, false);
    // closed once despite the double call
    assert_eq!(count(&out, ObjectId(20), 1), 1);
    assert!(!ls.list[0].mapped());
    assert!(ls.list.iter().all(|l| !l.linked));
    assert_eq!(ls.usable[0], rect(0, 0, 800, 600));
}

#[test]
fn a_closed_surface_ignores_commits_until_destroyed() {
    let (mut ls, mut out) = (glass(), Out::new());
    mk_layer(&mut ls, &mut out, 10, 20, TOP);
    map_bar(&mut ls, &mut out, 20, 30, 30);
    ls.close_for_output_loss(0, &mut out, false);
    let configures = count(&out, ObjectId(20), 0);
    // further changes are ignored, never errored on
    commit(&mut ls, &mut out, 20, true);
    flush_configures(&mut ls, &mut out);
    assert_eq!(count(&out, ERR, 0), 0);
    assert!(!ls.list[0].mapped());
    assert!(ls.list.iter().all(|l| !l.linked));
    assert_eq!(count(&out, ObjectId(20), 0), configures);
    // the client answers closed with destroy
    ls.destroy(0);
    assert_eq!(count(&out, ERR, 0), 0);
    assert!(ls.list.is_empty());
}

#[test]
fn output_loss_repicks_pointer_focus_from_under_the_dead_bar() {
    let (mut ls, mut out) = (glass(), Out::new());
    mk_layer(&mut ls, &mut out, 10, 20, TOP);
    map_bar(&mut ls, &mut out, 20, 30, 30);
    assert_eq!(under(&ls, 30, 10), Some(10));
    let e = ls.close_for_output_loss(0, &mut out, false);
    assert!(e.rearranged);
    assert_eq!(under(&ls, 30, 10), None);
}

#[test]
fn perpendicular_exclusive_zones_agree_with_placement() {
    let (mut ls, mut out) = (glass(), Out::new());
    // a left dock claims 40px of the edge
    mk_layer(&mut ls, &mut out, 10, 20, TOP);
    map_dock(&mut ls, &mut out, 20);
    assert_eq!(where_is(&ls, 20), rect(0, 0, 40, 600));
    // a top bar arranges inside what the dock left over, and its configure carries
    // that same width
    mk_layer(&mut ls, &mut out, 11, 21, TOP);
    map_bar(&mut ls, &mut out, 21, 30, 30);
    assert_eq!(where_is(&ls, 21), rect(40, 0, 800, 30));
    assert_eq!(ls.list[at(&ls, 21)].last_cfg, Some((760, 30)));
    assert_eq!(ls.usable[0], rect(40, 30, 800, 600));
}

#[test]
fn positive_zone_without_a_single_edge_is_treated_as_zero() {
    let (mut ls, mut out) = (glass(), Out::new());
    mk_layer(&mut ls, &mut out, 10, 20, TOP);
    map_dock(&mut ls, &mut out, 20);
    // corner-anchored with a positive zone: placed inside the usable area and
    // reserving nothing
    mk_layer(&mut ls, &mut out, 11, 21, TOP);
    let k = at(&ls, 21);
    ls.list[k].set_anchor(&mut out, 1 | 4);
    ls.list[k].set_size(100, 100);
    ls.list[k].set_exclusive_zone(10);
    map_cycle(&mut ls, &mut out, 21);
    assert_eq!(where_is(&ls, 21), rect(40, 0, 140, 100));
    assert_eq!(ls.usable[0], rect(40, 0, 800, 600));
}

#[test]
fn unmap_restores_the_creation_layer() {
    let (mut ls, mut out) = (glass(), Out::new());
    mk_layer(&mut ls, &mut out, 10, 20, TOP);
    map_bar(&mut ls, &mut out, 20, 30, 30);
    let k = at(&ls, 20);
    ls.list[k].set_layer(&mut out, BACKGROUND);
    commit(&mut ls, &mut out, 20, true);
    assert_eq!(ls.list[at(&ls, 20)].current.layer, BACKGROUND);
    commit(&mut ls, &mut out, 20, false);
    let l = &ls.list[at(&ls, 20)];
    assert!(!l.mapped());
    assert_eq!(l.current.layer, TOP);
}

fn refused(facts: SurfaceFacts, layer: u32) -> Option<(u32, u32)> {
    let mut out = Out::new();
    let given = shell().get_layer_surface(&mut out, ObjectId(20), 20, ObjectId(10), Some(facts), ObjectId(0), None, 0, layer);
    assert!(!matches!(given, LayerGiven::Made(_)));
    first_error(&out)
}

#[test]
fn a_committed_buffer_gets_already_constructed() {
    let facts = SurfaceFacts { has_buffer: true, ..plain(10) };
    assert_eq!(refused(facts, TOP), Some((90, ALREADY_CONSTRUCTED)));
}

#[test]
fn a_pending_attach_gets_already_constructed() {
    // attached but never committed still counts as a buffer
    let facts = SurfaceFacts { has_buffer: true, ..plain(10) };
    assert_eq!(refused(facts, TOP), Some((90, ALREADY_CONSTRUCTED)));
}

#[test]
fn negative_margins_overhang_the_output() {
    let (mut ls, mut out) = (glass(), Out::new());
    mk_layer(&mut ls, &mut out, 10, 20, TOP);
    let k = at(&ls, 20);
    ls.list[k].set_anchor(&mut out, 1 | 4 | 8);
    ls.list[k].set_size(0, 30);
    ls.list[k].set_margin(Margin { top: 0, right: -50, bottom: 0, left: -50 });
    map_cycle(&mut ls, &mut out, 20);
    // the layout keeps the overhang; drawing clips it to the output
    assert_eq!(where_is(&ls, 20), rect(-50, 0, 850, 30));
    assert_eq!(ls.list[at(&ls, 20)].last_cfg, Some((900, 30)));
}

#[test]
fn a_taken_role_and_an_unknown_layer_are_refused() {
    let facts = SurfaceFacts { other_role: Some("xdg_toplevel".to_owned()), ..plain(10) };
    assert_eq!(refused(facts, TOP), Some((90, ROLE)));
    assert_eq!(refused(plain(10), 4), Some((90, INVALID_LAYER)));
}

#[test]
fn surfaces_center_and_hug_their_edges() {
    let avail = rect(100, 0, 500, 200);
    let mut s = LayerState::new(TOP);
    s.size = (80, 40);
    assert_eq!(place(s, avail), rect(260, 80, 340, 120));
    s.anchor = A_RIGHT | A_BOTTOM;
    s.margin = Margin { top: 0, right: 10, bottom: 5, left: 0 };
    assert_eq!(place(s, avail), rect(410, 155, 490, 195));
    s.anchor = A_LEFT | A_TOP;
    s.margin = Margin { top: 1, right: 0, bottom: 0, left: 2 };
    assert_eq!(place(s, avail), rect(102, 1, 182, 41));
}

#[test]
fn pending_states_are_checked() {
    let mut s = LayerState::new(TOP);
    s.size = (10, 0);
    assert!(matches!(s.validate(), Err((INVALID_SIZE, _))));
    s.anchor = A_TOP | A_BOTTOM;
    assert!(s.validate().is_ok());
    s.exclusive_edge = A_LEFT;
    assert!(matches!(s.validate(), Err((INVALID_EXCLUSIVE_EDGE, _))));
}

#[test]
fn requests_outside_the_protocol_are_refused() {
    let (mut ls, mut out) = (glass(), Out::new());
    mk_layer(&mut ls, &mut out, 10, 20, TOP);
    let l = &mut ls.list[0];
    l.set_anchor(&mut out, 16);
    assert_eq!(first_error(&out), Some((20, INVALID_ANCHOR)));
    let mut out = Out::new();
    l.set_keyboard_interactivity(&mut out, KI_ON_DEMAND + 1);
    assert_eq!(first_error(&out), Some((20, INVALID_KI)));
    let mut out = Out::new();
    l.set_layer(&mut out, 4);
    assert_eq!(first_error(&out), Some((20, INVALID_LAYER)));
    let mut out = Out::new();
    l.set_exclusive_edge(&mut out, 3);
    assert_eq!(first_error(&out), Some((20, INVALID_EXCLUSIVE_EDGE)));
    let mut out = Out::new();
    l.ack_configure(&mut out, 7);
    assert_eq!(first_error(&out), Some((20, INVALID_SURFACE_STATE)));
}

#[test]
fn arranging_twice_changes_nothing() {
    let (mut ls, mut out) = (glass(), Out::new());
    mk_layer(&mut ls, &mut out, 10, 20, TOP);
    let e = map_bar(&mut ls, &mut out, 20, 30, 30);
    assert!(e.relayout);
    let before = where_is(&ls, 20);
    assert!(!arrange(&mut ls));
    assert_eq!(where_is(&ls, 20), before);
    assert_eq!(from_surface(&ls.list, 10), Some(0));
    assert_eq!(from_surface(&ls.list, 11), None);
}

#[test]
fn popups_are_walked_both_ways() {
    let (mut ls, mut out) = (glass(), Out::new());
    mk_layer(&mut ls, &mut out, 10, 20, TOP);
    let l = &mut ls.list[0];
    assert!(l.get_popup(&mut out, ObjectId(30), Some(false)));
    assert!(l.get_popup(&mut out, ObjectId(31), Some(false)));
    assert!(!l.get_popup(&mut out, ObjectId(32), None));
    assert_eq!(count(&out, ERR, 0), 1);
    assert_eq!(l.for_each_popup(), vec![ObjectId(30), ObjectId(31)]);
    assert_eq!(l.for_each_popup_rev(), vec![ObjectId(31), ObjectId(30)]);
    l.unlink_popup(ObjectId(30));
    assert_eq!(l.for_each_popup(), vec![ObjectId(31)]);
    l.break_loops();
    assert!(l.for_each_popup().is_empty());
    assert_eq!(LayerExt { ls: 20 }.layer_surface(), Some(20));
}
