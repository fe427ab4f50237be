//! The clipboard and drag-and-drop. A selection has a provider; whoever has the
//! keyboard gets a fresh offer of it, and receiving hands a pipe through to the
//! provider. A drag rides the implicit pointer grab: while it holds, the pointer
//! becomes enter, motion and leave of the surface under it. Releasing it drops, if the
//! target accepted a type and, for newer targets, an action survived negotiation;
//! else the drag is cancelled. A drag without a source stays with its client.
use crate::list::{any, find, retain};
use crate::output::first_slot;
use crate::protocol::data_control::{selection_changed, watcher_events, watcher_offers, watchers_told, DataControl};
use crate::protocol::events::{refused, sent, told_invalid, Event, Out, Sent};
use crate::protocol::interfaces::Interface;
use crate::protocol::primary_selection::{resolve_source, unregistered, wanted};
use crate::protocol::selection::{
    add_mime, add_source, all_forgotten, cancel_replaced, cancellation, delivery, forget_all, forget_client, forgotten,
    is_source, named_slot, names_source, offer_events, replaced_events, send_offer, source_of, source_slot,
    source_starts, tell_selection, told_selection, with_mime, Channel, Provider, SelectionSource,
};
use crate::protocol::{Fixed, ObjectId};
use vstd::prelude::*;

verus! {

pub const DND_COPY: u32 = 1;

pub const DND_MOVE: u32 = 2;

pub const DND_ASK: u32 = 4;

/// the version from which offers and sources negotiate actions and are finished
pub const ACTIONS_SINCE: u32 = 3;

#[derive(Clone, Copy, Debug, PartialEq, Eq, Structural)]
pub struct WlDataDevice {
    pub id: ObjectId,
    pub client: u32,
    pub version: u32,
}

#[derive(Clone, Copy, Debug, PartialEq, Eq, Structural)]
pub struct WlDataOffer {
    pub id: ObjectId,
    pub client: u32,
    pub version: u32,
    /// identity of the source
    pub source: u64,
    /// the drag that its requests are about; none for selections
    pub drag: Option<u64>,
    /// the drag whose current target it was made for
    pub listed: Option<u64>,
}

/// The surface under a drag.
#[derive(Clone, Copy, Debug, PartialEq, Eq, Structural)]
pub struct DragTarget {
    pub surface: u64,
    pub client: u32,
    pub id: ObjectId,
}

/// The surface that is drawn with the pointer.
#[derive(Clone, Copy, Debug, PartialEq, Eq, Structural)]
pub struct DragIcon {
    pub surface: u64,
    pub client: u32,
    pub id: ObjectId,
}

/// A drag. It lives on the seat while the button is held; after a drop the target's
/// offers keep it until they are done with it.
#[derive(Clone, Copy, Debug, PartialEq, Eq)]
pub struct Drag {
    /// identity, never reused
    pub uid: u64,
    pub client: u32,
    /// identity of the source; without one the drag stays with its client
    pub source: Option<u64>,
    pub icon: Option<DragIcon>,
    /// how far the icon was shifted from the pointer
    pub icon_off: (i32, i32),
    pub target: Option<DragTarget>,
    /// the target accepted a type
    pub accepted: bool,
    pub dest_actions: u32,
    pub preferred: u32,
    /// what was negotiated
    pub action: u32,
    /// a device of the target negotiates: a drop needs an action
    pub dest_v3: bool,
    pub dropped: bool,
}

/// A drag as it starts out.
pub open spec fn drag_starts(uid: u64, client: u32, source: Option<u64>, icon: Option<DragIcon>) -> Drag {
    Drag {
        uid,
        client,
        source,
        icon,
        icon_off: (0, 0),
        target: None,
        accepted: false,
        dest_actions: 0,
        preferred: 0,
        action: 0,
        dest_v3: false,
        dropped: false,
    }
}

impl Drag {
    pub fn new(uid: u64, client: u32, source: Option<u64>, icon: Option<DragIcon>) -> (d: Drag)
        ensures
            d == drag_starts(uid, client, source, icon),
    {
        Drag {
            uid,
            client,
            source,
            icon,
            icon_off: (0, 0),
            target: None,
            accepted: false,
            dest_actions: 0,
            preferred: 0,
            action: 0,
            dest_v3: false,
            dropped: false,
        }
    }

    pub fn target(&self) -> (r: Option<DragTarget>)
        ensures
            r == self.target,
    {
        self.target
    }
}

/// The action of a drag: what both sides allow, the target's pick if that is among
/// it, else copy before move before ask.
pub open spec fn negotiated(source: u32, dest: u32, preferred: u32) -> u32 {
    let both = source & dest;
    if both & preferred != 0 {
        preferred
    } else if both & DND_COPY != 0 {
        DND_COPY
    } else if both & DND_MOVE != 0 {
        DND_MOVE
    } else if both & DND_ASK != 0 {
        DND_ASK
    } else {
        0
    }
}

fn negotiate(source: u32, dest: u32, preferred: u32) -> (r: u32)
    ensures
        r == negotiated(source, dest, preferred),
{
    let both: u32 = source & dest;
    if both & preferred != 0 {
        preferred
    } else if both & DND_COPY != 0 {
        DND_COPY
    } else if both & DND_MOVE != 0 {
        DND_MOVE
    } else if both & DND_ASK != 0 {
        DND_ASK
    } else {
        0
    }
}

/// The seat's clipboard and drag.
pub struct DataDevices {
    pub devices: Vec<WlDataDevice>,
    /// identity of the provider of the selection
    pub selection: Option<u64>,
    pub drag: Option<Drag>,
    /// drags that left the seat, which offers still refer to
    pub parked: Vec<Drag>,
    pub offers: Vec<WlDataOffer>,
}

pub open spec fn is_drag(uid: u64) -> spec_fn(Drag) -> bool {
    |d: Drag| d.uid == uid
}

pub open spec fn refers(uid: u64) -> spec_fn(WlDataOffer) -> bool {
    |o: WlDataOffer| o.drag == Some(uid)
}

/// Some offer still refers to the drag.
pub open spec fn held_by(offers: Seq<WlDataOffer>) -> spec_fn(Drag) -> bool {
    |d: Drag| first_slot(offers, refers(d.uid)) is Some
}

/// The offers, those made for the current target of a drag cut loose from it.
pub open spec fn unlinked(offers: Seq<WlDataOffer>, uid: u64) -> Seq<WlDataOffer> {
    Seq::new(
        offers.len(),
        |i: int|
            if offers[i].listed == Some(uid) {
                WlDataOffer { drag: None, listed: None, ..offers[i] }
            } else {
                offers[i]
            },
    )
}

/// The offers, none made for the current target of a drag any more; they still refer
/// to it.
pub open spec fn unlisted(offers: Seq<WlDataOffer>, uid: u64) -> Seq<WlDataOffer> {
    Seq::new(
        offers.len(),
        |i: int| if offers[i].listed == Some(uid) { WlDataOffer { listed: None, ..offers[i] } } else { offers[i] },
    )
}

fn is_listed(o: &WlDataOffer, uid: u64) -> (r: bool)
    ensures
        r == (o.listed == Some(uid)),
{
    match o.listed {
        Some(u) => u == uid,
        None => false,
    }
}

fn does_refer(o: &WlDataOffer, uid: u64) -> (r: bool)
    ensures
        r == (o.drag == Some(uid)),
{
    match o.drag {
        Some(u) => u == uid,
        None => false,
    }
}

fn unlist(offers: &mut Vec<WlDataOffer>, uid: u64, cut: bool)
    ensures
        final(offers)@ == (if cut { unlinked(old(offers)@, uid) } else { unlisted(old(offers)@, uid) }),
{
    let ghost all = offers@;
    let ghost want = if cut { unlinked(all, uid) } else { unlisted(all, uid) };
    let n: usize = offers.len();
    for i in 0..n
        invariant
            all == old(offers)@,
            want == (if cut { unlinked(all, uid) } else { unlisted(all, uid) }),
            n == all.len(),
            offers@.len() == n,
            forall|j: int| i <= j < n ==> offers@[j] == all[j],
            forall|j: int| 0 <= j < i ==> #[trigger] offers@[j] == want[j],
    {
        if is_listed(&offers[i], uid) {
            offers[i].listed = None;
            if cut {
                offers[i].drag = None;
            }
        }
    }
    assert(offers@ =~= want);
}

/// How many of the first `n` devices are a client's.
pub open spec fn devices_of(devs: Seq<WlDataDevice>, n: nat, client: u32) -> nat
    decreases n,
{
    if n == 0 || n > devs.len() {
        0
    } else {
        devices_of(devs, (n - 1) as nat, client) + (if devs[n - 1].client == client { 1nat } else { 0nat })
    }
}

proof fn devices_of_grows(devs: Seq<WlDataDevice>, a: nat, b: nat, client: u32)
    requires
        a <= b <= devs.len(),
    ensures
        devices_of(devs, a, client) <= devices_of(devs, b, client) <= b,
    decreases b,
{
    if a < b {
        devices_of_grows(devs, a, (b - 1) as nat, client);
    } else if b > 0 {
        devices_of_grows(devs, (b - 1) as nat, (b - 1) as nat, client);
    }
}

/// One event to each of a client's devices, among the first `n`.
pub open spec fn to_devices(devs: Seq<WlDataDevice>, n: nat, client: u32, event: Event) -> Seq<Sent>
    decreases n,
{
    if n == 0 || n > devs.len() {
        Seq::empty()
    } else {
        let front = to_devices(devs, (n - 1) as nat, client, event);
        if devs[n - 1].client == client {
            front.push(sent(client, devs[n - 1].id, event))
        } else {
            front
        }
    }
}

/// What the target's devices are told, if there is a target and it is still there.
pub open spec fn to_target(d: DataDevices, target: Option<DragTarget>, gone: bool, event: Event) -> Seq<Sent> {
    match target {
        Some(t) if !gone => to_devices(d.devices@, d.devices@.len(), t.client, event),
        _ => Seq::empty(),
    }
}

/// The events that go to all devices of a drag's target alike.
#[derive(Clone, Copy, Debug, PartialEq, Eq, Structural)]
enum Spread {
    Leave,
    Drop,
    Motion { time: u32, x: Fixed, y: Fixed },
}

spec fn spread_event(s: Spread) -> Event {
    match s {
        Spread::Leave => Event::DndLeave,
        Spread::Drop => Event::DndDrop,
        Spread::Motion { time, x, y } => Event::DndMotion { time, x, y },
    }
}

fn send_target(devs: &Vec<WlDataDevice>, target: Option<DragTarget>, gone: bool, s: Spread, out: &mut Out)
    ensures
        final(out).sent@ == old(out).sent@ + (match target {
            Some(t) if !gone => to_devices(devs@, devs@.len(), t.client, spread_event(s)),
            _ => Seq::empty(),
        }),
{
    let ghost start = out.sent@;
    assert(start + Seq::<Sent>::empty() =~= start);
    let client: u32 = match target {
        Some(t) => t.client,
        None => {
            return;
        },
    };
    if gone {
        return;
    }
    let n: usize = devs.len();
    for i in 0..n
        invariant
            n == devs@.len(),
            start == old(out).sent@,
            out.sent@ == start + to_devices(devs@, i as nat, client, spread_event(s)),
    {
        if devs[i].client == client {
            let event: Event = match s {
                Spread::Leave => Event::DndLeave,
                Spread::Drop => Event::DndDrop,
                Spread::Motion { time, x, y } => Event::DndMotion { time, x, y },
            };
            out.event(client, devs[i].id, event);
        }
        assert(out.sent@ =~= start + to_devices(devs@, (i + 1) as nat, client, spread_event(s)));
    }
}

/// What a client's devices among the first `n` are told of a selection; offers take
/// ids in turn.
pub open spec fn told_devices(
    devs: Seq<WlDataDevice>,
    n: nat,
    client: u32,
    sel: Option<SelectionSource>,
    fresh: Seq<ObjectId>,
) -> Seq<Sent>
    decreases n,
{
    if n == 0 || n > devs.len() {
        Seq::empty()
    } else {
        let front = told_devices(devs, (n - 1) as nat, client, sel, fresh);
        if devs[n - 1].client == client {
            front + told_selection(
                Channel::Data,
                client,
                devs[n - 1].id,
                fresh[devices_of(devs, (n - 1) as nat, client) as int],
                sel,
            )
        } else {
            front
        }
    }
}

/// The offers that come with it; for a drag, `drag` is its identity.
pub open spec fn new_offers(
    devs: Seq<WlDataDevice>,
    n: nat,
    client: u32,
    sel: Option<SelectionSource>,
    fresh: Seq<ObjectId>,
    drag: Option<u64>,
) -> Seq<WlDataOffer>
    decreases n,
{
    if n == 0 || n > devs.len() || sel is None {
        Seq::empty()
    } else {
        let front = new_offers(devs, (n - 1) as nat, client, sel, fresh, drag);
        if devs[n - 1].client == client {
            front.push(
                WlDataOffer {
                    id: fresh[devices_of(devs, (n - 1) as nat, client) as int],
                    client,
                    version: devs[n - 1].version,
                    source: sel->0.uid,
                    drag,
                    listed: drag,
                },
            )
        } else {
            front
        }
    }
}

/// What tells a device that a drag entered: an offer of the source's types and
/// actions, if there is a source, then the enter.
pub open spec fn entered(
    d: WlDataDevice,
    source: Option<SelectionSource>,
    id: ObjectId,
    serial: u32,
    surface: ObjectId,
    x: Fixed,
    y: Fixed,
) -> Seq<Sent> {
    match source {
        Some(s) => offer_events(Channel::Data, d.client, d.id, id, s) + (if d.version >= ACTIONS_SINCE {
            seq![sent(d.client, id, Event::OfferSourceActions { actions: s.dnd_actions })]
        } else {
            Seq::empty()
        }) + seq![sent(d.client, d.id, Event::DndEnter { serial, surface, x, y, id })],
        None => seq![sent(d.client, d.id, Event::DndEnter { serial, surface, x, y, id: ObjectId(0) })],
    }
}

/// What a client's devices among the first `n` are told when a drag enters.
pub open spec fn entered_devices(
    devs: Seq<WlDataDevice>,
    n: nat,
    t: DragTarget,
    source: Option<SelectionSource>,
    fresh: Seq<ObjectId>,
    serial: u32,
    x: Fixed,
    y: Fixed,
) -> Seq<Sent>
    decreases n,
{
    if n == 0 || n > devs.len() {
        Seq::empty()
    } else {
        let front = entered_devices(devs, (n - 1) as nat, t, source, fresh, serial, x, y);
        if devs[n - 1].client == t.client {
            front + entered(
                devs[n - 1],
                source,
                fresh[devices_of(devs, (n - 1) as nat, t.client) as int],
                serial,
                t.id,
                x,
                y,
            )
        } else {
            front
        }
    }
}

/// Whether one of a client's devices among the first `n` negotiates actions.
pub open spec fn negotiates(devs: Seq<WlDataDevice>, n: nat, client: u32) -> bool
    decreases n,
{
    if n == 0 || n > devs.len() {
        false
    } else {
        negotiates(devs, (n - 1) as nat, client) || (devs[n - 1].client == client && devs[n - 1].version
            >= ACTIONS_SINCE)
    }
}

/// The action as the current target's offers among the first `n` hear of it.
pub open spec fn action_events(offers: Seq<WlDataOffer>, n: nat, uid: u64, action: u32) -> Seq<Sent>
    decreases n,
{
    if n == 0 || n > offers.len() {
        Seq::empty()
    } else {
        let front = action_events(offers, (n - 1) as nat, uid, action);
        let o = offers[n - 1];
        if o.listed == Some(uid) && o.version >= ACTIONS_SINCE {
            front.push(sent(o.client, o.id, Event::OfferAction { action }))
        } else {
            front
        }
    }
}

pub open spec fn source_action(s: SelectionSource, action: u32) -> Seq<Sent> {
    if s.version >= ACTIONS_SINCE {
        seq![sent(s.client, s.id, Event::SourceAction { action })]
    } else {
        Seq::empty()
    }
}

/// What both sides hear when the action is negotiated anew.
pub open spec fn action_news(d: Drag, source: Option<SelectionSource>, offers: Seq<WlDataOffer>) -> Seq<Sent> {
    match source {
        Some(s) => {
            let chosen = negotiated(s.dnd_actions, d.dest_actions, d.preferred);
            if chosen == d.action {
                Seq::empty()
            } else {
                action_events(offers, offers.len(), d.uid, chosen) + source_action(s, chosen)
            }
        },
        None => Seq::empty(),
    }
}

pub open spec fn with_action(d: Drag, source: Option<SelectionSource>) -> Drag {
    match source {
        Some(s) => Drag { action: negotiated(s.dnd_actions, d.dest_actions, d.preferred), ..d },
        None => d,
    }
}

fn update_action(d: &mut Drag, sources: &Vec<SelectionSource>, offers: &Vec<WlDataOffer>, out: &mut Out)
    ensures
        *final(d) == with_action(*old(d), source_of(sources@, old(d).source)),
        final(out).sent@ == old(out).sent@ + action_news(*old(d), source_of(sources@, old(d).source), offers@),
{
    let ghost start = out.sent@;
    assert(start + Seq::<Sent>::empty() =~= start);
    let k: usize = match source_slot(sources, d.source) {
        None => {
            return;
        },
        Some(k) => k,
    };
    let chosen: u32 = negotiate(sources[k].dnd_actions, d.dest_actions, d.preferred);
    if d.action == chosen {
        return;
    }
    d.action = chosen;
    let uid: u64 = d.uid;
    let n: usize = offers.len();
    for i in 0..n
        invariant
            n == offers@.len(),
            out.sent@ == start + action_events(offers@, i as nat, uid, chosen),
    {
        if is_listed(&offers[i], uid) && offers[i].version >= ACTIONS_SINCE {
            out.event(offers[i].client, offers[i].id, Event::OfferAction { action: chosen });
        }
        assert(out.sent@ =~= start + action_events(offers@, (i + 1) as nat, uid, chosen));
    }
    if sources[k].version >= ACTIONS_SINCE {
        out.event(sources[k].client, sources[k].id, Event::SourceAction { action: chosen });
    }
    assert(out.sent@ =~= start + action_news(*old(d), source_of(sources@, old(d).source), offers@));
}

/// The drag left the seat: it is kept as long as an offer refers to it.
pub open spec fn parks(a: DataDevices, b: DataDevices, d: Drag) -> bool {
    b.drag is None && b.parked@ == a.parked@.push(d).filter(held_by(b.offers@))
}

/// What a cancelled source hears.
pub open spec fn cancellations(sources: Seq<SelectionSource>, source: Option<u64>) -> Seq<Sent> {
    match source_of(sources, source) {
        Some(s) => seq![cancellation(s)],
        None => Seq::empty(),
    }
}

/// A release drops on a target that is there and, where there is a source, accepted a
/// type and, if it negotiates, agreed on an action.
pub open spec fn drops(d: Drag, gone: bool) -> bool {
    &&& d.target is Some
    &&& !gone
    &&& d.source is None || (d.accepted && (!d.dest_v3 || d.action != 0))
}

/// The drag that an offer's requests are about.
pub open spec fn session(dd: DataDevices, uid: Option<u64>) -> Option<Drag> {
    match uid {
        None => None,
        Some(u) => match dd.drag {
            Some(d) if d.uid == u => Some(d),
            _ => match first_slot(dd.parked@, is_drag(u)) {
                Some(k) => Some(dd.parked@[k]),
                None => None,
            },
        },
    }
}

/// `b` is `a` where the drag of that identity has changed.
pub open spec fn session_changed(a: DataDevices, b: DataDevices, d: Drag) -> bool {
    &&& b.devices == a.devices
    &&& b.selection == a.selection
    &&& b.offers == a.offers
    &&& match a.drag {
        Some(x) if x.uid == d.uid => b.drag == Some(d) && b.parked == a.parked,
        _ => b.drag == a.drag && b.parked@ == a.parked@.update(first_slot(a.parked@, is_drag(d.uid))->0, d),
    }
}

pub open spec fn not_device_of(client: u32) -> spec_fn(WlDataDevice) -> bool {
    |d: WlDataDevice| d.client != client
}

pub open spec fn not_offer_of(client: u32) -> spec_fn(WlDataOffer) -> bool {
    |o: WlDataOffer| o.client != client
}

pub open spec fn focus_ids(d: DataDevices, focus: Option<u32>) -> nat {
    match focus {
        Some(c) => devices_of(d.devices@, d.devices@.len(), c),
        None => 0,
    }
}

/// How many ids a change of the selection takes.
pub open spec fn ids_needed(d: DataDevices, control: DataControl, sel: Option<SelectionSource>, focus: Option<u32>) -> nat {
    if sel is None {
        0
    } else {
        focus_ids(d, focus) + watchers_told(control.devices@, control.devices@.len(), false)
    }
}

/// What the client with the keyboard is told of a selection.
pub open spec fn told_focus(d: DataDevices, focus: Option<u32>, sel: Option<SelectionSource>, fresh: Seq<ObjectId>) -> Seq<
    Sent,
> {
    match focus {
        Some(c) => told_devices(d.devices@, d.devices@.len(), c, sel, fresh),
        None => Seq::empty(),
    }
}

pub open spec fn focus_offers(d: DataDevices, focus: Option<u32>, sel: Option<SelectionSource>, fresh: Seq<ObjectId>) -> Seq<
    WlDataOffer,
> {
    match focus {
        Some(c) => new_offers(d.devices@, d.devices@.len(), c, sel, fresh, None),
        None => Seq::empty(),
    }
}

/// What setting the selection to a provider, or to none, comes to: the old provider is
/// cancelled if it is another one, the client with the keyboard is told, then the
/// watchers.
pub open spec fn selection_set(
    a: DataDevices,
    b: DataDevices,
    ca: DataControl,
    cb: DataControl,
    before: Out,
    after: Out,
    src: Option<u64>,
    sources: Seq<SelectionSource>,
    focus: Option<u32>,
    fresh: Seq<ObjectId>,
) -> bool {
    let sel = source_of(sources, src);
    let used = if sel is Some { focus_ids(a, focus) } else { 0 };
    &&& b.selection == src
    &&& b.devices == a.devices
    &&& b.drag == a.drag
    &&& b.parked == a.parked
    &&& b.offers@ == a.offers@ + focus_offers(a, focus, sel, fresh)
    &&& cb.devices == ca.devices
    &&& cb.offers@ == ca.offers@ + watcher_offers(ca.devices@, ca.devices@.len(), sel, false, fresh, used)
    &&& after.sent@ == before.sent@ + replaced_events(sources, a.selection, src) + told_focus(a, focus, sel, fresh)
        + watcher_events(ca.devices@, ca.devices@.len(), sel, false, fresh, used)
}

/// What becomes of a drag that dies out of band: the target is left, its offers are
/// cut loose.
pub open spec fn torn_down(a: DataDevices, b: DataDevices, before: Out, after: Out, gone: bool) -> bool {
    &&& b.devices == a.devices
    &&& b.selection == a.selection
    &&& match a.drag {
        None => b.drag is None && b.parked == a.parked && b.offers == a.offers && after.sent@ == before.sent@,
        Some(d) => {
            &&& b.offers@ == unlinked(a.offers@, d.uid)
            &&& parks(a, b, d)
            &&& after.sent@ == before.sent@ + to_target(a, d.target, gone, Event::DndLeave)
        },
    }
}

/// What releasing the grab comes to: the drag drops on its target, or is called off.
pub open spec fn released(
    a: DataDevices,
    b: DataDevices,
    before: Seq<Sent>,
    after: Seq<Sent>,
    gone: bool,
    sources: Seq<SelectionSource>,
) -> bool {
    &&& b.devices == a.devices
    &&& b.selection == a.selection
    &&& match a.drag {
        None => b == a && after == before,
        Some(d) => if drops(d, gone) {
            &&& b.offers@ == unlisted(a.offers@, d.uid)
            &&& parks(a, b, Drag { dropped: true, ..d })
            &&& after == before + to_target(a, d.target, gone, Event::DndDrop) + (match source_of(sources, d.source) {
                Some(s) if s.version >= ACTIONS_SINCE => seq![sent(s.client, s.id, Event::DropPerformed)],
                _ => Seq::empty(),
            })
        } else {
            &&& b.offers@ == unlinked(a.offers@, d.uid)
            &&& parks(a, b, d)
            &&& after == before + to_target(a, d.target, gone, Event::DndLeave) + cancellations(sources, d.source)
        },
    }
}

/// What entering a surface comes to: fresh offers for its client, and the enter.
pub open spec fn entered_target(
    a: DataDevices,
    b: DataDevices,
    before: Seq<Sent>,
    after: Seq<Sent>,
    t: DragTarget,
    serial: u32,
    x: Fixed,
    y: Fixed,
    sources: Seq<SelectionSource>,
    fresh: Seq<ObjectId>,
) -> bool {
    &&& b.devices == a.devices
    &&& b.selection == a.selection
    &&& b.parked == a.parked
    &&& match a.drag {
        None => b.drag is None && b.offers == a.offers && after == before,
        Some(d) => {
            let devs = a.devices@;
            let n = devs.len();
            let src = source_of(sources, d.source);
            &&& b.drag == Some(
                Drag {
                    target: Some(t),
                    accepted: false,
                    dest_actions: 0,
                    preferred: 0,
                    action: 0,
                    dest_v3: src is Some && negotiates(devs, n, t.client),
                    ..d
                },
            )
            &&& b.offers@ == (if devices_of(devs, n, t.client) == 0 {
                a.offers@
            } else {
                unlisted(a.offers@, d.uid) + new_offers(devs, n, t.client, src, fresh, Some(d.uid))
            })
            &&& after == before + entered_devices(devs, n, t, src, fresh, serial, x, y)
        },
    }
}

/// What leaving the target comes to.
pub open spec fn left_target(a: DataDevices, b: DataDevices, before: Seq<Sent>, after: Seq<Sent>, gone: bool) -> bool {
    &&& b.devices == a.devices
    &&& b.selection == a.selection
    &&& b.parked == a.parked
    &&& match a.drag {
        Some(d) if d.target is Some => {
            &&& b.drag == Some(Drag { target: None, accepted: false, action: 0, ..d })
            &&& b.offers@ == unlinked(a.offers@, d.uid)
            &&& after == before + to_target(a, d.target, gone, Event::DndLeave)
        },
        _ => b == a && after == before,
    }
}

/// What accepting a type, or none, on offer `k` comes to.
pub open spec fn type_accepted(
    a: DataDevices,
    b: DataDevices,
    before: Seq<Sent>,
    after: Seq<Sent>,
    k: int,
    mime: Option<String>,
    sources: Seq<SelectionSource>,
) -> bool {
    match session(a, a.offers@[k].drag) {
        Some(d) if !d.dropped => {
            &&& session_changed(a, b, Drag { accepted: mime is Some, ..d })
            &&& after == before + (match source_of(sources, d.source) {
                Some(s) => seq![sent(s.client, s.id, Event::SourceTarget { mime })],
                None => Seq::empty(),
            })
        },
        _ => b == a && after == before,
    }
}

/// What stating the target's actions on offer `k` comes to.
pub open spec fn actions_stated(
    a: DataDevices,
    b: DataDevices,
    before: Seq<Sent>,
    after: Seq<Sent>,
    k: int,
    actions: u32,
    preferred: u32,
    sources: Seq<SelectionSource>,
) -> bool {
    match session(a, a.offers@[k].drag) {
        Some(d) if !d.dropped => {
            let e = Drag { dest_actions: actions, preferred, ..d };
            let src = source_of(sources, d.source);
            &&& session_changed(a, b, with_action(e, src))
            &&& after == before + action_news(e, src, a.offers@)
        },
        _ => b == a && after == before,
    }
}

/// What finishing offer `k` comes to.
pub open spec fn offer_finished(
    a: DataDevices,
    b: DataDevices,
    before: Seq<Sent>,
    after: Seq<Sent>,
    k: int,
    sources: Seq<SelectionSource>,
) -> bool {
    &&& b.offers@ == a.offers@.update(k, WlDataOffer { drag: None, ..a.offers@[k] })
    &&& b == (DataDevices { offers: b.offers, ..a })
    &&& after == before + (match session(a, a.offers@[k].drag) {
        Some(d) if d.dropped => match source_of(sources, d.source) {
            Some(s) if s.version >= ACTIONS_SINCE => seq![sent(s.client, s.id, Event::DndFinished)],
            _ => Seq::empty(),
        },
        _ => Seq::empty(),
    })
}

/// What destroying offer `k` comes to.
pub open spec fn offer_destroyed(
    a: DataDevices,
    b: DataDevices,
    before: Seq<Sent>,
    after: Seq<Sent>,
    k: int,
    sources: Seq<SelectionSource>,
) -> bool {
    let o = a.offers@[k];
    &&& b == (DataDevices { offers: b.offers, ..a })
    &&& b.offers@ == (if o.drag is None && o.listed is Some { a.offers@ } else { a.offers@.remove(k) })
    &&& after == before + (match session(a, o.drag) {
        Some(d) if d.dropped && o.version >= ACTIONS_SINCE => cancellations(sources, d.source),
        _ => Seq::empty(),
    })
}

impl DataDevices {
    pub fn new() -> (d: DataDevices)
        ensures
            d.devices@.len() == 0,
            d.selection is None,
            d.drag is None,
            d.parked@.len() == 0,
            d.offers@.len() == 0,
    {
        DataDevices {
            devices: Vec::new(),
            selection: None,
            drag: None,
            parked: Vec::new(),
            offers: Vec::new(),
        }
    }

    fn park(&mut self, d: Drag)
        ensures
            parks(*old(self), *final(self), d),
            final(self).devices == old(self).devices,
            final(self).selection == old(self).selection,
            final(self).offers == old(self).offers,
    {
        self.drag = None;
        self.parked.push(d);
        let offers: &Vec<WlDataOffer> = &self.offers;
        retain(
            &mut self.parked,
            |p: &Drag| -> (b: bool) ensures b == held_by(offers@)(*p) { is_held(offers, p.uid) },
            Ghost(held_by(offers@)),
        );
    }

    fn dnd_teardown(&mut self, gone: bool, out: &mut Out)
        ensures
            torn_down(*old(self), *final(self), *old(out), *final(out), gone),
    {
        match self.drag {
            None => {},
            Some(d) => {
                send_target(&self.devices, d.target, gone, Spread::Leave, out);
                unlist(&mut self.offers, d.uid, true);
                self.park(d);
            },
        }
    }

    pub fn clear(&mut self, sources: &mut Vec<SelectionSource>)
        ensures
            final(self).devices@.len() == 0,
            final(self).selection is None,
            final(self).drag is None,
            final(self).offers == old(self).offers,
            match old(self).drag {
                Some(d) => parks(*old(self), *final(self), d),
                None => final(self).parked == old(self).parked,
            },
            final(sources)@ == all_forgotten(old(sources)@, Provider::Data),
    {
        self.devices = Vec::new();
        self.selection = None;
        match self.drag {
            Some(d) => self.park(d),
            None => {},
        }
        forget_all(sources, Provider::Data);
    }

    pub fn drag(&self) -> (r: Option<Drag>)
        ensures
            r == self.drag,
    {
        self.drag
    }

    /// Starts a drag.
    pub fn begin_drag_session(&mut self, drag: Drag)
        ensures
            final(self).drag == Some(drag),
            final(self).devices == old(self).devices,
            final(self).selection == old(self).selection,
            final(self).offers == old(self).offers,
            match old(self).drag {
                Some(d) => final(self).parked@ == old(self).parked@.push(d).filter(held_by(old(self).offers@)),
                None => final(self).parked == old(self).parked,
            },
    {
        match self.drag {
            Some(d) => self.park(d),
            None => {},
        }
        self.drag = Some(drag);
    }

    /// The drag is over a new surface: its client's devices get fresh offers, then the
    /// enter. `fresh` are unused server ids, `serial` a new serial.
    pub fn dnd_enter(
        &mut self,
        t: DragTarget,
        serial: u32,
        x: Fixed,
        y: Fixed,
        sources: &Vec<SelectionSource>,
        fresh: &Vec<ObjectId>,
        out: &mut Out,
    )
        requires
            old(self).drag matches Some(d) && source_of(sources@, d.source) is Some ==> fresh@.len() >= devices_of(
                old(self).devices@,
                old(self).devices@.len(),
                t.client,
            ),
        ensures
            entered_target(
                *old(self),
                *final(self),
                old(out).sent@,
                final(out).sent@,
                t,
                serial,
                x,
                y,
                sources@,
                fresh@,
            ),
    {
        let mut d: Drag = match self.drag {
            None => {
                return;
            },
            Some(d) => d,
        };
        d.target = Some(t);
        d.accepted = false;
        d.dest_actions = 0;
        d.preferred = 0;
        d.action = 0;
        d.dest_v3 = false;
        let ghost devs = self.devices@;
        let ghost src = source_of(sources@, d.source);
        let ghost start = out.sent@;
        let n: usize = self.devices.len();
        let slot: Option<usize> = source_slot(sources, d.source);
        let mut made: Vec<WlDataOffer> = Vec::new();
        let mut used: usize = 0;
        let mut v3: bool = false;
        assert(start + Seq::<Sent>::empty() =~= start);
        for i in 0..n
            invariant
                n == devs.len(),
                devs == self.devices@,
                *self == *old(self),
                start == old(out).sent@,
                src == source_of(sources@, d.source),
                src is Some <==> slot is Some,
                slot matches Some(k) ==> k < sources@.len() && src == Some(sources@[k as int]),
                src is Some ==> fresh@.len() >= devices_of(devs, n as nat, t.client),
                used == devices_of(devs, i as nat, t.client),
                v3 == (src is Some && negotiates(devs, i as nat, t.client)),
                made@ == new_offers(devs, i as nat, t.client, src, fresh@, Some(d.uid)),
                out.sent@ == start + entered_devices(devs, i as nat, t, src, fresh@, serial, x, y),
        {
            proof {
                devices_of_grows(devs, (i + 1) as nat, n as nat, t.client);
            }
            let dev: WlDataDevice = self.devices[i];
            let ghost mid = out.sent@;
            if dev.client == t.client {
                let mut named: ObjectId = ObjectId(0);
                match slot {
                    Some(k) => {
                        let id: ObjectId = fresh[used];
                        send_offer(out, Channel::Data, dev.client, dev.id, id, &sources[k]);
                        if dev.version >= ACTIONS_SINCE {
                            out.event(
                                dev.client,
                                id,
                                Event::OfferSourceActions { actions: sources[k].dnd_actions },
                            );
                            v3 = true;
                        }
                        made.push(
                            WlDataOffer {
                                id,
                                client: dev.client,
                                version: dev.version,
                                source: sources[k].uid,
                                drag: Some(d.uid),
                                listed: Some(d.uid),
                            },
                        );
                        named = id;
                    },
                    None => {},
                }
                used = used + 1;
                out.event(dev.client, dev.id, Event::DndEnter { serial, surface: t.id, x, y, id: named });
                assert(out.sent@ =~= mid + entered(
                    dev,
                    src,
                    fresh@[devices_of(devs, i as nat, t.client) as int],
                    serial,
                    t.id,
                    x,
                    y,
                ));
            }
            assert(made@ =~= new_offers(devs, (i + 1) as nat, t.client, src, fresh@, Some(d.uid)));
            assert(out.sent@ =~= start + entered_devices(devs, (i + 1) as nat, t, src, fresh@, serial, x, y));
        }
        d.dest_v3 = v3;
        self.drag = Some(d);
        if used > 0 {
            unlist(&mut self.offers, d.uid, false);
            let ghost base = self.offers@;
            self.offers.append(&mut made);
            assert(self.offers@ =~= base + new_offers(devs, n as nat, t.client, src, fresh@, Some(d.uid)));
        }
    }

    /// The pointer moved over the target; `gone` says that its surface is destroyed.
    pub fn dnd_motion(&self, gone: bool, time: u32, x: Fixed, y: Fixed, out: &mut Out)
        ensures
            final(out).sent@ == old(out).sent@ + (match self.drag {
                Some(d) => to_target(*self, d.target, gone, Event::DndMotion { time, x, y }),
                None => Seq::empty(),
            }),
    {
        assert(out.sent@ + Seq::<Sent>::empty() =~= out.sent@);
        match self.drag {
            Some(d) => send_target(&self.devices, d.target, gone, Spread::Motion { time, x, y }, out),
            None => {},
        }
    }

    /// The pointer left the target: its offers are cut loose.
    pub fn dnd_leave(&mut self, gone: bool, out: &mut Out)
        ensures
            left_target(*old(self), *final(self), old(out).sent@, final(out).sent@, gone),
    {
        match self.drag {
            None => {},
            Some(d) => {
                if d.target.is_some() {
                    unlist(&mut self.offers, d.uid, true);
                    send_target(&self.devices, d.target, gone, Spread::Leave, out);
                    self.drag = Some(Drag { target: None, accepted: false, action: 0, ..d });
                }
            },
        }
    }

    /// The grab was released: the drag drops on a target that accepted, else it is
    /// cancelled. The seat is free either way; a drop lives on in the target's offers.
    pub fn dnd_finish_session(&mut self, gone: bool, sources: &Vec<SelectionSource>, out: &mut Out)
        ensures
            released(*old(self), *final(self), old(out).sent@, final(out).sent@, gone, sources@),
    {
        let d: Drag = match self.drag {
            None => {
                return;
            },
            Some(d) => d,
        };
        let valid: bool = d.target.is_some() && !gone && (d.source.is_none() || (d.accepted && (!d.dest_v3 || d.action
            != 0)));
        let slot: Option<usize> = source_slot(sources, d.source);
        if !valid {
            send_target(&self.devices, d.target, gone, Spread::Leave, out);
            unlist(&mut self.offers, d.uid, true);
            let ghost mid = out.sent@;
            match slot {
                Some(k) => {
                    sources[k].cancelled(out);
                    assert(out.sent@ =~= mid + cancellations(sources@, d.source));
                },
                None => {
                    assert(out.sent@ =~= mid + cancellations(sources@, d.source));
                },
            }
            self.park(d);
            return;
        }
        unlist(&mut self.offers, d.uid, false);
        send_target(&self.devices, d.target, gone, Spread::Drop, out);
        let ghost mid = out.sent@;
        assert(mid + Seq::<Sent>::empty() =~= mid);
        match slot {
            Some(k) => {
                if sources[k].version >= ACTIONS_SINCE {
                    out.event(sources[k].client, sources[k].id, Event::DropPerformed);
                    assert(out.sent@ =~= mid + seq![
                        sent(sources@[k as int].client, sources@[k as int].id, Event::DropPerformed),
                    ]);
                }
            },
            None => {},
        }
        self.park(Drag { dropped: true, ..d });
    }

    /// The identity of the provider of the selection.
    pub fn current_source(&self) -> (r: Option<u64>)
        ensures
            r == self.selection,
    {
        self.selection
    }

    /// Tells every device of a client of the selection, each with an offer of its
    /// own. `fresh` are unused server ids; the result is how many were used.
    pub fn offer_to(&mut self, sources: &Vec<SelectionSource>, client: u32, fresh: &Vec<ObjectId>, out: &mut Out) -> (r:
        usize)
        requires
            source_of(sources@, old(self).selection) is Some ==> fresh@.len() >= devices_of(
                old(self).devices@,
                old(self).devices@.len(),
                client,
            ),
        ensures
            ({
                let sel = source_of(sources@, old(self).selection);
                let n = old(self).devices@.len();
                &&& *final(self) == (DataDevices { offers: final(self).offers, ..*old(self) })
                &&& final(self).offers@ == old(self).offers@ + new_offers(
                    old(self).devices@,
                    n,
                    client,
                    sel,
                    fresh@,
                    None,
                )
                &&& final(out).sent@ == old(out).sent@ + told_devices(old(self).devices@, n, client, sel, fresh@)
                &&& r == (if sel is Some { devices_of(old(self).devices@, n, client) } else { 0 })
            }),
    {
        let ghost sel = source_of(sources@, self.selection);
        let ghost devs = self.devices@;
        let ghost start = out.sent@;
        let ghost had = self.offers@;
        let slot: Option<usize> = source_slot(sources, self.selection);
        let n: usize = self.devices.len();
        let mut used: usize = 0;
        assert(start + Seq::<Sent>::empty() =~= start);
        assert(had + Seq::<WlDataOffer>::empty() =~= had);
        for i in 0..n
            invariant
                n == devs.len(),
                devs == self.devices@,
                *self == (DataDevices { offers: self.offers, ..*old(self) }),
                sel == source_of(sources@, self.selection),
                sel is Some <==> slot is Some,
                slot matches Some(k) ==> k < sources@.len() && sel == Some(sources@[k as int]),
                sel is Some ==> fresh@.len() >= devices_of(devs, n as nat, client),
                used == (if sel is Some { devices_of(devs, i as nat, client) } else { 0 }),
                out.sent@ == start + told_devices(devs, i as nat, client, sel, fresh@),
                self.offers@ == had + new_offers(devs, i as nat, client, sel, fresh@, None),
        {
            proof {
                devices_of_grows(devs, (i + 1) as nat, n as nat, client);
            }
            let d: WlDataDevice = self.devices[i];
            if d.client == client {
                match slot {
                    Some(k) => {
                        let id: ObjectId = fresh[used];
                        tell_selection(out, Channel::Data, client, d.id, id, Some(&sources[k]));
                        self.offers.push(
                            WlDataOffer {
                                id,
                                client,
                                version: d.version,
                                source: sources[k].uid,
                                drag: None,
                                listed: None,
                            },
                        );
                        used = used + 1;
                    },
                    None => {
                        tell_selection(out, Channel::Data, client, d.id, ObjectId(0), None);
                    },
                }
            }
            assert(out.sent@ =~= start + told_devices(devs, (i + 1) as nat, client, sel, fresh@));
            assert(self.offers@ =~= had + new_offers(devs, (i + 1) as nat, client, sel, fresh@, None));
        }
        used
    }

    /// Makes a provider the selection, or none.
    pub fn set_selection_source(
        &mut self,
        src: Option<u64>,
        sources: &Vec<SelectionSource>,
        focus: Option<u32>,
        control: &mut DataControl,
        fresh: &Vec<ObjectId>,
        out: &mut Out,
    )
        requires
            fresh@.len() >= ids_needed(*old(self), *old(control), source_of(sources@, src), focus),
        ensures
            selection_set(
                *old(self),
                *final(self),
                *old(control),
                *final(control),
                *old(out),
                *final(out),
                src,
                sources@,
                focus,
                fresh@,
            ),
    {
        let was: Option<u64> = self.selection;
        self.selection = src;
        cancel_replaced(out, sources, was, src);
        let ghost mid = out.sent@;
        assert(mid + Seq::<Sent>::empty() =~= mid);
        assert(self.offers@ + Seq::<WlDataOffer>::empty() =~= self.offers@);
        let used: usize = match focus {
            Some(c) => self.offer_to(sources, c, fresh, out),
            None => 0,
        };
        selection_changed(control, sources, src, false, fresh, used, out);
    }
}

fn is_held(offers: &Vec<WlDataOffer>, uid: u64) -> (r: bool)
    ensures
        r == (first_slot(offers@, refers(uid)) is Some),
{
    any(
        offers,
        |o: &WlDataOffer| -> (b: bool) ensures b == (o.drag == Some(uid)) { does_refer(o, uid) },
        Ghost(refers(uid)),
    )
}

/// The drag of the seat is a client's.
pub open spec fn drags_for(d: DataDevices, client: u32) -> bool {
    d.drag is Some && d.drag->0.client == client
}

/// The drag of the seat is over a surface of a client.
pub open spec fn drags_over(d: DataDevices, client: u32) -> bool {
    d.drag is Some && d.drag->0.target is Some && d.drag->0.target->0.client == client
}

impl DataDevices {
    /// A client is gone. A drag of its own dies; a drag over one of its surfaces is
    /// over none any more; a selection it provides through a data source goes with it.
    /// `gone` says that the surface under the drag is destroyed.
    pub fn drop_client(&mut self, sources: &mut Vec<SelectionSource>, client: u32, gone: bool, out: &mut Out)
        ensures
            final(self).devices@ == old(self).devices@.filter(not_device_of(client)),
            final(sources)@ == forgotten(old(sources)@, Provider::Data, client),
            final(self).selection == (match source_of(old(sources)@, old(self).selection) {
                Some(s) if s.registered && s.provider is Data && s.client == client => None,
                _ => old(self).selection,
            }),
            if drags_for(*old(self), client) {
                let d = old(self).drag->0;
                let cut = unlinked(old(self).offers@, d.uid);
                &&& final(self).drag is None
                &&& final(self).parked@ == old(self).parked@.push(d).filter(held_by(cut))
                &&& final(self).offers@ == cut.filter(not_offer_of(client))
                &&& final(out).sent@ == old(out).sent@ + to_target(*old(self), d.target, gone, Event::DndLeave)
            } else if drags_over(*old(self), client) {
                let d = old(self).drag->0;
                &&& final(self).drag == Some(Drag { target: None, ..d })
                &&& final(self).parked == old(self).parked
                &&& final(self).offers@ == unlinked(old(self).offers@, d.uid).filter(not_offer_of(client))
                &&& final(out).sent@ == old(out).sent@
            } else {
                &&& final(self).drag == old(self).drag
                &&& final(self).parked == old(self).parked
                &&& final(self).offers@ == old(self).offers@.filter(not_offer_of(client))
                &&& final(out).sent@ == old(out).sent@
            },
    {
        match self.drag {
            None => {},
            Some(d) => {
                let over: bool = match d.target {
                    Some(t) => t.client == client,
                    None => false,
                };
                if d.client == client {
                    self.dnd_teardown(gone, out);
                } else if over {
                    unlist(&mut self.offers, d.uid, true);
                    self.drag = Some(Drag { target: None, ..d });
                }
            },
        }
        retain(
            &mut self.devices,
            |d: &WlDataDevice| -> (b: bool) ensures b == (d.client != client) { d.client != client },
            Ghost(not_device_of(client)),
        );
        retain(
            &mut self.offers,
            |o: &WlDataOffer| -> (b: bool) ensures b == (o.client != client) { o.client != client },
            Ghost(not_offer_of(client)),
        );
        let owned: bool = match source_slot(sources, self.selection) {
            Some(k) => sources[k].registered && sources[k].provider == Provider::Data && sources[k].client == client,
            None => false,
        };
        forget_client(sources, Provider::Data, client);
        if owned {
            self.selection = None;
        }
    }

    fn session_of(&self, uid: Option<u64>) -> (r: Option<Drag>)
        ensures
            r == session(*self, uid),
            r is Some ==> uid is Some && r->0.uid == uid->0,
    {
        let u: u64 = match uid {
            None => {
                return None;
            },
            Some(u) => u,
        };
        match self.drag {
            Some(d) => {
                if d.uid == u {
                    return Some(d);
                }
            },
            None => {},
        }
        match find(&self.parked, |d: &Drag| -> (b: bool) ensures b == (d.uid == u) { d.uid == u }, Ghost(is_drag(u))) {
            Some(k) => Some(self.parked[k]),
            None => None,
        }
    }

    fn put_session(&mut self, d: Drag)
        requires
            session(*old(self), Some(d.uid)) is Some,
        ensures
            session_changed(*old(self), *final(self), d),
    {
        let u: u64 = d.uid;
        let active: bool = match self.drag {
            Some(x) => x.uid == u,
            None => false,
        };
        if active {
            self.drag = Some(d);
            return;
        }
        match find(&self.parked, |x: &Drag| -> (b: bool) ensures b == (x.uid == u) { x.uid == u }, Ghost(is_drag(u))) {
            Some(k) => {
                self.parked.set(k, d);
            },
            None => {},
        }
    }

    /// The target accepts a type of offer `k`, or none; the source hears of it. After
    /// the drop, or once the pointer left, it means nothing.
    pub fn accept(&mut self, k: usize, mime: Option<String>, sources: &Vec<SelectionSource>, out: &mut Out)
        requires
            k < old(self).offers@.len(),
        ensures
            type_accepted(*old(self), *final(self), old(out).sent@, final(out).sent@, k as int, mime, sources@),
    {
        assert(out.sent@ + Seq::<Sent>::empty() =~= out.sent@);
        match self.session_of(self.offers[k].drag) {
            None => {},
            Some(d) => {
                if !d.dropped {
                    self.put_session(Drag { accepted: mime.is_some(), ..d });
                    match source_slot(sources, d.source) {
                        Some(j) => {
                            out.event(sources[j].client, sources[j].id, Event::SourceTarget { mime });
                            assert(out.sent@ =~= old(out).sent@ + seq![
                                sent(
                                    sources@[j as int].client,
                                    sources@[j as int].id,
                                    Event::SourceTarget { mime },
                                ),
                            ]);
                        },
                        None => {},
                    }
                }
            },
        }
    }

    /// The target states its actions on offer `k`; the action is negotiated anew.
    pub fn set_actions(&mut self, k: usize, actions: u32, preferred: u32, sources: &Vec<SelectionSource>, out: &mut Out)
        requires
            k < old(self).offers@.len(),
        ensures
            actions_stated(
                *old(self),
                *final(self),
                old(out).sent@,
                final(out).sent@,
                k as int,
                actions,
                preferred,
                sources@,
            ),
    {
        match self.session_of(self.offers[k].drag) {
            None => {},
            Some(d) => {
                if !d.dropped {
                    let mut e: Drag = Drag { dest_actions: actions, preferred, ..d };
                    update_action(&mut e, sources, &self.offers, out);
                    self.put_session(e);
                }
            },
        }
    }

    /// The target is done with the data of offer `k`; after a drop the source hears
    /// of it.
    pub fn finish(&mut self, k: usize, sources: &Vec<SelectionSource>, out: &mut Out)
        requires
            k < old(self).offers@.len(),
        ensures
            offer_finished(*old(self), *final(self), old(out).sent@, final(out).sent@, k as int, sources@),
    {
        let ghost start = out.sent@;
        assert(start + Seq::<Sent>::empty() =~= start);
        let was: Option<Drag> = self.session_of(self.offers[k].drag);
        self.offers[k].drag = None;
        assert(self.offers@ =~= old(self).offers@.update(
            k as int,
            WlDataOffer { drag: None, ..old(self).offers@[k as int] },
        ));
        match was {
            None => {},
            Some(d) => {
                if d.dropped {
                    match source_slot(sources, d.source) {
                        Some(j) => {
                            if sources[j].version >= ACTIONS_SINCE {
                                out.event(sources[j].client, sources[j].id, Event::DndFinished);
                                assert(out.sent@ =~= start + seq![
                                    sent(sources@[j as int].client, sources@[j as int].id, Event::DndFinished),
                                ]);
                            }
                        },
                        None => {},
                    }
                }
            },
        }
    }

    /// The client destroys offer `k`. After a drop, without a finish, that aborts the
    /// transfer, and the source is told that it is cancelled; older clients end with
    /// a destroy.
    pub fn destroy_offer(&mut self, k: usize, sources: &Vec<SelectionSource>, out: &mut Out)
        requires
            k < old(self).offers@.len(),
        ensures
            offer_destroyed(*old(self), *final(self), old(out).sent@, final(out).sent@, k as int, sources@),
    {
        let ghost start = out.sent@;
        assert(start + Seq::<Sent>::empty() =~= start);
        let o: WlDataOffer = self.offers[k];
        match self.session_of(o.drag) {
            None => {},
            Some(d) => {
                if d.dropped && o.version >= ACTIONS_SINCE {
                    match source_slot(sources, d.source) {
                        Some(j) => {
                            sources[j].cancelled(out);
                        },
                        None => {},
                    }
                    assert(out.sent@ =~= start + cancellations(sources@, d.source));
                }
            },
        }
        if o.drag.is_some() || o.listed.is_none() {
            self.offers.remove(k);
        }
    }

    pub open spec fn icon_is(self, client: u32, id: ObjectId) -> bool {
        self.drag is Some && self.drag->0.icon is Some && self.drag->0.icon->0.client == client
            && self.drag->0.icon->0.id == id
    }

    fn my_drag(&self, client: u32, id: ObjectId) -> (r: Option<Drag>)
        ensures
            r == (if self.icon_is(client, id) { self.drag } else { None }),
    {
        match self.drag {
            Some(d) => match d.icon {
                Some(i) => if i.client == client && i.id.0 == id.0 {
                    Some(d)
                } else {
                    None
                },
                None => None,
            },
            None => None,
        }
    }

    /// The drag icon commits an offset: it shifts.
    pub fn icon_committed(&mut self, client: u32, id: ObjectId, offset: (i32, i32))
        requires
            old(self).icon_is(client, id) ==> i32::MIN <= old(self).drag->0.icon_off.0 + offset.0 <= i32::MAX
                && i32::MIN <= old(self).drag->0.icon_off.1 + offset.1 <= i32::MAX,
        ensures
            !old(self).icon_is(client, id) ==> *final(self) == *old(self),
            old(self).icon_is(client, id) ==> *final(self) == (DataDevices {
                drag: Some(
                    Drag {
                        icon_off: (
                            (old(self).drag->0.icon_off.0 + offset.0) as i32,
                            (old(self).drag->0.icon_off.1 + offset.1) as i32,
                        ),
                        ..old(self).drag->0
                    },
                ),
                ..*old(self)
            }),
    {
        match self.my_drag(client, id) {
            Some(d) => {
                self.drag = Some(
                    Drag { icon_off: (d.icon_off.0 + offset.0, d.icon_off.1 + offset.1), ..d },
                );
            },
            None => {},
        }
    }

    /// Whether a surface is the icon of the drag: then its commits are redrawn.
    pub fn icon_shown(&self, client: u32, id: ObjectId) -> (r: bool)
        ensures
            r == self.icon_is(client, id),
    {
        self.my_drag(client, id).is_some()
    }

    /// The drag icon is destroyed: the drag goes on without. `true` when there is
    /// something to redraw.
    pub fn icon_destroyed(&mut self, client: u32, id: ObjectId) -> (r: bool)
        ensures
            r == old(self).icon_is(client, id),
            !r ==> *final(self) == *old(self),
            r ==> *final(self) == (DataDevices {
                drag: Some(Drag { icon: None, ..old(self).drag->0 }),
                ..*old(self)
            }),
    {
        match self.my_drag(client, id) {
            Some(d) => {
                self.drag = Some(Drag { icon: None, ..d });
                true
            },
            None => false,
        }
    }
}

/// A parked drag keeps its source.
pub open spec fn parks_source(offers: Seq<WlDataOffer>, uid: u64) -> spec_fn(Drag) -> bool {
    |d: Drag| d.source == Some(uid) && held_by(offers)(d)
}

/// A source is there as long as requests can name it, or a selection or a drag has
/// it.
pub open spec fn lives(sources: Seq<SelectionSource>, data: DataDevices, primary: Option<u64>, uid: u64) -> bool {
    match source_of(sources, Some(uid)) {
        None => false,
        Some(s) => {
            ||| s.registered
            ||| data.selection == Some(uid)
            ||| primary == Some(uid)
            ||| (data.drag is Some && data.drag->0.source == Some(uid))
            ||| first_slot(data.parked@, parks_source(data.offers@, uid)) is Some
        },
    }
}

fn is_just(a: Option<u64>, uid: u64) -> (r: bool)
    ensures
        r == (a == Some(uid)),
{
    match a {
        Some(u) => u == uid,
        None => false,
    }
}

/// Receives data of a type from the source of an offer: its provider is handed the
/// pipe. `false` when the source is gone; the pipe is closed then. `primary` is the
/// provider of the primary selection.
pub fn receive(
    sources: &Vec<SelectionSource>,
    data: &DataDevices,
    primary: Option<u64>,
    source: u64,
    mime: String,
    fd: u32,
    out: &mut Out,
) -> (r: bool)
    ensures
        r == lives(sources@, *data, primary, source),
        final(out).sent@ == (if r {
            old(out).sent@.push(delivery(source_of(sources@, Some(source))->0, mime, fd))
        } else {
            old(out).sent@
        }),
{
    let k: usize = match source_slot(sources, Some(source)) {
        None => {
            return false;
        },
        Some(k) => k,
    };
    let dragged: bool = match data.drag {
        Some(d) => is_just(d.source, source),
        None => false,
    };
    let parked: bool = any(
        &data.parked,
        |d: &Drag| -> (b: bool) ensures b == parks_source(data.offers@, source)(*d) { is_just(d.source, source) && is_held(&data.offers, d.uid) },
        Ghost(parks_source(data.offers@, source)),
    );
    if sources[k].registered || is_just(data.selection, source) || is_just(primary, source) || dragged || parked {
        sources[k].send(out, mime, fd);
        true
    } else {
        false
    }
}

pub struct WlDataDeviceManagerGlobal;

impl WlDataDeviceManagerGlobal {
    pub fn interface(&self) -> (r: Interface)
        ensures
            r is WlDataDeviceManager,
    {
        Interface::WlDataDeviceManager
    }

    pub fn version(&self) -> (r: u32)
        ensures
            r == 3,
    {
        3
    }

    pub fn bind(&self, client: u32, id: ObjectId, version: u32) -> (r: WlDataDeviceManager)
        ensures
            r == (WlDataDeviceManager { id, client, version }),
    {
        WlDataDeviceManager { id, client, version }
    }
}

#[derive(Clone, Copy, Debug, PartialEq, Eq, Structural)]
pub struct WlDataDeviceManager {
    pub id: ObjectId,
    pub client: u32,
    pub version: u32,
}

impl WlDataDeviceManager {
    /// A source; `uid` is a number never used before.
    pub fn create_data_source(&self, sources: &mut Vec<SelectionSource>, id: ObjectId, uid: u64) -> (r: WlDataSource)
        ensures
            r == (WlDataSource { id, client: self.client, version: self.version, uid }),
            final(sources)@.len() == old(sources)@.len() + 1,
            final(sources)@.drop_last() == old(sources)@,
            source_starts(final(sources)@.last(), uid, Provider::Data, self.client, id, self.version),
    {
        add_source(sources, uid, Provider::Data, self.client, id, self.version);
        WlDataSource { id, client: self.client, version: self.version, uid }
    }

    pub fn get_data_device(&self, data: &mut DataDevices, id: ObjectId) -> (r: WlDataDevice)
        ensures
            r == (WlDataDevice { id, client: self.client, version: self.version }),
            final(data).devices@ == old(data).devices@.push(r),
            *final(data) == (DataDevices { devices: final(data).devices, ..*old(data) }),
    {
        let d = WlDataDevice { id, client: self.client, version: self.version };
        data.devices.push(d);
        d
    }
}

/// The object of a source.
#[derive(Clone, Copy, Debug, PartialEq, Eq, Structural)]
pub struct WlDataSource {
    pub id: ObjectId,
    pub client: u32,
    pub version: u32,
    pub uid: u64,
}

proof fn no_selection_no_offers(devs: Seq<WlDataDevice>, n: nat, client: u32, fresh: Seq<ObjectId>)
    ensures
        new_offers(devs, n, client, None, fresh, None) == Seq::<WlDataOffer>::empty(),
        told_devices(devs, n, client, None, fresh) == told_devices(devs, n, client, None, Seq::empty()),
    decreases n,
{
    if n > 0 && n <= devs.len() {
        no_selection_no_offers(devs, (n - 1) as nat, client, fresh);
    }
}

impl WlDataSource {
    pub fn offer(&self, sources: &mut Vec<SelectionSource>, mime: String)
        ensures
            with_mime(old(sources)@, final(sources)@, self.uid, mime),
    {
        add_mime(sources, self.uid, mime);
    }

    pub fn set_actions(&self, sources: &mut Vec<SelectionSource>, actions: u32)
        ensures
            match first_slot(old(sources)@, is_source(self.uid)) {
                None => final(sources)@ == old(sources)@,
                Some(k) => final(sources)@ == old(sources)@.update(
                    k,
                    SelectionSource { dnd_actions: actions, ..old(sources)@[k] },
                ),
            },
    {
        match source_slot(sources, Some(self.uid)) {
            None => {},
            Some(k) => {
                sources[k].dnd_actions = actions;
                assert(sources@ =~= old(sources)@.update(
                    k as int,
                    SelectionSource { dnd_actions: actions, ..old(sources)@[k as int] },
                ));
            },
        }
    }

    /// The drag of the seat has this source.
    pub open spec fn dragged(self, data: DataDevices, sources: Seq<SelectionSource>) -> bool {
        &&& data.drag is Some
        &&& source_of(sources, data.drag->0.source) matches Some(s) && s.client == self.client && s.id == self.id
    }

    /// The source is the selection.
    pub open spec fn selected(self, data: DataDevices, sources: Seq<SelectionSource>) -> bool {
        let slot = first_slot(sources, names_source(Provider::Data, self.client, self.id));
        slot is Some && data.selection == Some(sources[slot->0].uid)
    }

    /// The source goes. A drag of it dies; if it is the selection, that is empty now,
    /// and the client with the keyboard learns of it. `gone` says that the surface
    /// under the drag is destroyed.
    pub fn destroy(
        &self,
        sources: &mut Vec<SelectionSource>,
        data: &mut DataDevices,
        focus: Option<u32>,
        gone: bool,
        out: &mut Out,
    )
        ensures
            unregistered(old(sources)@, final(sources)@, Provider::Data, self.client, self.id),
            final(data).devices == old(data).devices,
            final(data).selection == (if self.selected(*old(data), old(sources)@) {
                None
            } else {
                old(data).selection
            }),
            if self.dragged(*old(data), old(sources)@) {
                let d = old(data).drag->0;
                &&& final(data).offers@ == unlinked(old(data).offers@, d.uid)
                &&& final(data).drag is None
                &&& final(data).parked@ == old(data).parked@.push(d).filter(held_by(unlinked(old(data).offers@, d.uid)))
            } else {
                final(data).offers@ == old(data).offers@ && final(data).drag == old(data).drag && final(data).parked
                    == old(data).parked
            },
            final(out).sent@ == old(out).sent@ + (if self.dragged(*old(data), old(sources)@) {
                to_target(*old(data), old(data).drag->0.target, gone, Event::DndLeave)
            } else {
                Seq::empty()
            }) + (if self.selected(*old(data), old(sources)@) {
                told_focus(*old(data), focus, None, Seq::empty())
            } else {
                Seq::empty()
            }),
    {
        let ghost start = out.sent@;
        assert(start + Seq::<Sent>::empty() =~= start);
        let dragging: bool = match data.drag {
            Some(d) => match source_slot(sources, d.source) {
                Some(k) => sources[k].client == self.client && sources[k].id.0 == self.id.0,
                None => false,
            },
            None => false,
        };
        if dragging {
            data.dnd_teardown(gone, out);
        }
        let ghost mid = out.sent@;
        assert(mid + Seq::<Sent>::empty() =~= mid);
        let ghost had = data.offers@;
        assert(had + Seq::<WlDataOffer>::empty() =~= had);
        match named_slot(sources, Provider::Data, self.client, self.id) {
            None => {},
            Some(k) => {
                let uid: u64 = sources[k].uid;
                sources[k].registered = false;
                assert(sources@ =~= old(sources)@.update(
                    k as int,
                    SelectionSource { registered: false, ..old(sources)@[k as int] },
                ));
                if is_just(data.selection, uid) {
                    data.selection = None;
                    match focus {
                        Some(c) => {
                            let none: Vec<ObjectId> = Vec::new();
                            data.offer_to(sources, c, &none, out);
                            proof {
                                no_selection_no_offers(old(data).devices@, old(data).devices@.len(), c, none@);
                            }
                        },
                        None => {},
                    }
                }
            },
        }
    }
}

/// What a drag request needs to know of its icon surface.
pub struct IconFacts {
    pub surface: u64,
    /// the name of a role, other than that of an icon, that it was given before
    pub other_role: Option<String>,
}

/// What a drag request names.
pub struct DragAsk {
    pub origin: ObjectId,
    /// the origin is a surface
    pub origin_found: bool,
    /// the serial names the implicit grab on it
    pub grab_valid: bool,
    pub source: ObjectId,
    pub icon: ObjectId,
    /// the surface that the icon id names
    pub icon_found: Option<IconFacts>,
}

pub open spec fn not_device(client: u32, id: ObjectId) -> spec_fn(WlDataDevice) -> bool {
    |d: WlDataDevice| !(d.client == client && d.id == id)
}

impl WlDataDevice {
    /// A drag on the implicit grab that the serial names; anything stale is ignored.
    /// The icon surface of a drag that begins has the icon role. `uid` is a number
    /// never used before.
    pub fn start_drag(&self, out: &mut Out, sources: &Vec<SelectionSource>, a: DragAsk, uid: u64) -> (r: Option<Drag>)
        ensures
            if !a.origin_found {
                r is None && told_invalid(*old(out), *final(out), self.client, a.origin)
            } else if !a.grab_valid {
                r is None && final(out).sent@ == old(out).sent@
            } else {
                match wanted(sources@, Provider::Data, self.client, a.source) {
                    None => r is None && told_invalid(*old(out), *final(out), self.client, a.source),
                    Some(source) => if a.icon.0 == 0 {
                        r == Some(drag_starts(uid, self.client, source, None)) && final(out).sent@ == old(out).sent@
                    } else {
                        match a.icon_found {
                            None => r is None && told_invalid(*old(out), *final(out), self.client, a.icon),
                            Some(i) => match i.other_role {
                                Some(name) => r is None && refused(
                                    *old(out),
                                    *final(out),
                                    self.client,
                                    self.id,
                                    0,
                                    "the icon surface already has the "@ + name@ + " role"@,
                                ),
                                None => {
                                    &&& r == Some(
                                        drag_starts(
                                            uid,
                                            self.client,
                                            source,
                                            Some(
                                                DragIcon { surface: i.surface, client: self.client, id: a.icon },
                                            ),
                                        ),
                                    )
                                    &&& final(out).sent@ == old(out).sent@
                                },
                            },
                        }
                    },
                }
            },
    {
        if !a.origin_found {
            out.invalid_object(self.client, a.origin);
            return None;
        }
        if !a.grab_valid {
            return None;
        }
        let source: Option<u64> = match resolve_source(sources, Provider::Data, self.client, a.source) {
            None => {
                out.invalid_object(self.client, a.source);
                return None;
            },
            Some(s) => s,
        };
        if a.icon.0 == 0 {
            return Some(Drag::new(uid, self.client, source, None));
        }
        match a.icon_found {
            None => {
                out.invalid_object(self.client, a.icon);
                None
            },
            Some(i) => match i.other_role {
                Some(name) => {
                    let text: String = "the icon surface already has the ".to_owned().concat(name.as_str()).concat(
                        " role",
                    );
                    out.protocol_error(self.client, self.id, 0, text.as_str());
                    None
                },
                None => Some(
                    Drag::new(
                        uid,
                        self.client,
                        source,
                        Some(DragIcon { surface: i.surface, client: self.client, id: a.icon }),
                    ),
                ),
            },
        }
    }

    /// Sets the selection to a source of the client. `true` when it was set: then the
    /// x11 bridge follows.
    pub fn set_selection(
        &self,
        out: &mut Out,
        source: ObjectId,
        sources: &Vec<SelectionSource>,
        data: &mut DataDevices,
        focus: Option<u32>,
        control: &mut DataControl,
        fresh: &Vec<ObjectId>,
    ) -> (r: bool)
        requires
            wanted(sources@, Provider::Data, self.client, source) matches Some(src) ==> fresh@.len() >= ids_needed(
                *old(data),
                *old(control),
                source_of(sources@, src),
                focus,
            ),
        ensures
            match wanted(sources@, Provider::Data, self.client, source) {
                None => !r && *final(data) == *old(data) && *final(control) == *old(control) && told_invalid(
                    *old(out),
                    *final(out),
                    self.client,
                    source,
                ),
                Some(src) => r && selection_set(
                    *old(data),
                    *final(data),
                    *old(control),
                    *final(control),
                    *old(out),
                    *final(out),
                    src,
                    sources@,
                    focus,
                    fresh@,
                ),
            },
    {
        match resolve_source(sources, Provider::Data, self.client, source) {
            None => {
                out.invalid_object(self.client, source);
                false
            },
            Some(src) => {
                data.set_selection_source(src, sources, focus, control, fresh, out);
                true
            },
        }
    }

    /// The client lets go of the device.
    pub fn release(&self, data: &mut DataDevices)
        ensures
            final(data).devices@ == old(data).devices@.filter(not_device(self.client, self.id)),
            *final(data) == (DataDevices { devices: final(data).devices, ..*old(data) }),
    {
        let (client, id): (u32, ObjectId) = (self.client, self.id);
        retain(
            &mut data.devices,
            |d: &WlDataDevice| -> (b: bool) ensures b == !(d.client == client && d.id == id) { !(d.client == client && d.id.0 == id.0) },
            Ghost(not_device(client, id)),
        );
    }
}

/// An action that is agreed on is one that both sides allow, at least in part; with a
/// single preferred action, entirely. Where both sides allow copy, move or ask, some
/// action is agreed on.
pub proof fn negotiation_is_mutual(source: u32, dest: u32, preferred: u32)
    ensures
        negotiated(source, dest, preferred) != 0 ==> negotiated(source, dest, preferred) & source & dest != 0,
        (source & dest) & 7 != 0 ==> negotiated(source, dest, preferred) != 0,
        preferred == 0 || preferred == DND_COPY || preferred == DND_MOVE || preferred == DND_ASK ==> negotiated(
            source,
            dest,
            preferred,
        ) & (source & dest) == negotiated(source, dest, preferred),
{
    let a = negotiated(source, dest, preferred);
    let both = source & dest;
    assert(both & preferred != 0 ==> preferred & source & dest != 0) by (bit_vector)
        requires
            both == source & dest,
    ;
    assert(both & 1 != 0 ==> 1u32 & source & dest != 0 && 1u32 & both == 1) by (bit_vector)
        requires
            both == source & dest,
    ;
    assert(both & 2 != 0 ==> 2u32 & source & dest != 0 && 2u32 & both == 2) by (bit_vector)
        requires
            both == source & dest,
    ;
    assert(both & 4 != 0 ==> 4u32 & source & dest != 0 && 4u32 & both == 4) by (bit_vector)
        requires
            both == source & dest,
    ;
    assert(both & 7 != 0 ==> both & 1 != 0 || both & 2 != 0 || both & 4 != 0) by (bit_vector);
    assert(both & preferred != 0 ==> preferred != 0) by (bit_vector);
    assert(0u32 & both == 0) by (bit_vector);
    assert(preferred == 1 || preferred == 2 || preferred == 4 ==> (both & preferred != 0 ==> preferred & both
        == preferred)) by (bit_vector);
    assert(preferred == 0 ==> both & preferred == 0) by (bit_vector);
}

/// Once the pointer left, the offers of the target mean nothing to the drag any more.
pub proof fn left_offers_are_inert(offers: Seq<WlDataOffer>, uid: u64, i: int)
    requires
        0 <= i < offers.len(),
        offers[i].listed == Some(uid),
    ensures
        unlinked(offers, uid)[i].drag is None,
        action_events(unlinked(offers, uid), offers.len(), uid, 1).len() == 0,
{
    nothing_listed(unlinked(offers, uid), offers.len(), uid);
}

proof fn nothing_listed(offers: Seq<WlDataOffer>, n: nat, uid: u64)
    requires
        forall|i: int| 0 <= i < offers.len() ==> (#[trigger] offers[i]).listed != Some(uid),
    ensures
        action_events(offers, n, uid, 1).len() == 0,
    decreases n,
{
    if n > 0 && n <= offers.len() {
        nothing_listed(offers, (n - 1) as nat, uid);
    }
}

} // verus!
