//! What becomes of a drag: who hears of it, and when a release is a drop.
use crate::output::{first_slot_found, first_slot_is_lowest};
use crate::protocol::data_device::{
    actions_stated, cancellations, entered_target, held_by, left_target, negotiated, negotiation_is_mutual,
    offer_destroyed, offer_finished, refers, released, session, to_devices, type_accepted, DataDevices, Drag,
    DragTarget, WlDataDevice, WlDataOffer,
};
use crate::protocol::events::{sent, Event, Sent};
use crate::protocol::selection::{is_source, source_of, SelectionSource};
use crate::protocol::{Fixed, ObjectId};
use vstd::prelude::*;

verus! {

pub open spec fn is_of(client: u32) -> spec_fn(WlDataDevice) -> bool {
    |d: WlDataDevice| d.client == client
}

/// One event to every device of a client, and to no other.
pub open spec fn each_device(devs: Seq<WlDataDevice>, client: u32, event: Event) -> Seq<Sent> {
    devs.filter(is_of(client)).map_values(|d: WlDataDevice| sent(d.client, d.id, event))
}

/// The source of an identity is at `k`: the first, where identities repeat.
pub open spec fn source_at(sources: Seq<SelectionSource>, uid: u64, k: int) -> bool {
    &&& 0 <= k < sources.len()
    &&& sources[k].uid == uid
    &&& forall|j: int| 0 <= j < k ==> (#[trigger] sources[j]).uid != uid
}

/// No source has that identity.
pub open spec fn no_source(sources: Seq<SelectionSource>, uid: u64) -> bool {
    forall|j: int| 0 <= j < sources.len() ==> (#[trigger] sources[j]).uid != uid
}

/// The event by which a source hears that it is not wanted any more.
pub open spec fn calls_off(e: Event) -> bool {
    e is SourceCancelled || e is PrimaryCancelled || e is ControlCancelled
}

/// `news` is the one event that calls a source off, in the words of its provider.
pub open spec fn source_called_off(news: Seq<Sent>, s: SelectionSource) -> bool {
    &&& news.len() == 1
    &&& news[0].client == s.client
    &&& news[0].object == s.id
    &&& calls_off(news[0].event)
    &&& news[0].event is PrimaryCancelled <==> s.provider is Primary
    &&& news[0].event is ControlCancelled <==> s.provider is Control
}

/// An offer still refers to the drag.
pub open spec fn offered(offers: Seq<WlDataOffer>, uid: u64) -> bool {
    exists|i: int| 0 <= i < offers.len() && (#[trigger] offers[i]).drag == Some(uid)
}

/// The drag dropped: each device of the target hears the drop and the source, if it
/// negotiates, that it was performed. The offers of the target go on referring to the drag,
/// which is kept, as dropped, while one of them does.
pub open spec fn dropped_on(
    a: DataDevices,
    b: DataDevices,
    before: Seq<Sent>,
    after: Seq<Sent>,
    d: Drag,
    t: DragTarget,
    sources: Seq<SelectionSource>,
) -> bool {
    let news = after.skip(before.len() as int);
    let drop = each_device(a.devices@, t.client, Event::DndDrop);
    &&& before.is_prefix_of(after)
    &&& news.take(drop.len() as int) == drop
    &&& drop.len() <= news.len() <= drop.len() + 1
    &&& news.len() > drop.len() ==> news.last().event is DropPerformed
    &&& forall|k: int|
        d.source is Some && #[trigger] source_at(sources, d.source->0, k) ==> if sources[k].version >= 3 {
            news.last() == sent(sources[k].client, sources[k].id, Event::DropPerformed) && news.len() == drop.len() + 1
        } else {
            news == drop
        }
    &&& d.source is None || no_source(sources, d.source->0) ==> news == drop
    &&& forall|i: int| 0 <= i < news.len() ==> !calls_off((#[trigger] news[i]).event)
    &&& b.drag is None
    &&& b.offers@.len() == a.offers@.len()
    &&& forall|i: int|
        0 <= i < a.offers@.len() ==> (#[trigger] b.offers@[i]).drag == a.offers@[i].drag && b.offers@[i].listed != Some(d.uid)
    &&& b.parked@.contains(Drag { dropped: true, ..d }) <== offered(b.offers@, d.uid)
}

/// The drag was called off: each device of a target that is still there is left, and the
/// source is cancelled. The offers of the target mean nothing any more.
pub open spec fn called_off(
    a: DataDevices,
    b: DataDevices,
    before: Seq<Sent>,
    after: Seq<Sent>,
    d: Drag,
    there: Option<DragTarget>,
    sources: Seq<SelectionSource>,
) -> bool {
    let news = after.skip(before.len() as int);
    let leave = match there {
        Some(t) => each_device(a.devices@, t.client, Event::DndLeave),
        None => Seq::empty(),
    };
    &&& before.is_prefix_of(after)
    &&& leave.is_prefix_of(news)
    &&& forall|k: int|
        d.source is Some && #[trigger] source_at(sources, d.source->0, k) ==> source_called_off(
            news.skip(leave.len() as int),
            sources[k],
        )
    &&& d.source is None || no_source(sources, d.source->0) ==> news == leave
    &&& forall|i: int| 0 <= i < news.len() ==> !((#[trigger] news[i]).event is DndDrop) && !(news[i].event is DropPerformed)
    &&& b.drag is None
    &&& b.offers@.len() == a.offers@.len()
    &&& forall|i: int|
        0 <= i < a.offers@.len() && a.offers@[i].listed == Some(d.uid) ==> (#[trigger] b.offers@[i]).drag is None
            && b.offers@[i].listed is None
}

proof fn each_device_among(devs: Seq<WlDataDevice>, n: nat, client: u32, event: Event)
    requires
        n <= devs.len(),
    ensures
        to_devices(devs, n, client, event) == each_device(devs.take(n as int), client, event),
    decreases n,
{
    reveal(Seq::filter);
    if n > 0 {
        each_device_among(devs, (n - 1) as nat, client, event);
        assert(devs.take(n as int).drop_last() =~= devs.take(n - 1));
        assert(devs.take(n as int).last() == devs[n - 1]);
        let front = devs.take(n - 1).filter(is_of(client));
        if is_of(client)(devs[n - 1]) {
            assert(devs.take(n as int).filter(is_of(client)) =~= front.push(devs[n - 1]));
            assert(each_device(devs.take(n as int), client, event) =~= each_device(devs.take(n - 1), client, event).push(
                sent(client, devs[n - 1].id, event),
            ));
        }
    } else {
        assert(each_device(devs.take(0), client, event) =~= Seq::empty());
    }
}

/// Every device of a client hears an event that is for all of them, and no other does.
pub(crate) proof fn each_device_hears(devs: Seq<WlDataDevice>, client: u32, event: Event)
    ensures
        to_devices(devs, devs.len(), client, event) == each_device(devs, client, event),
{
    each_device_among(devs, devs.len(), client, event);
    assert(devs.take(devs.len() as int) =~= devs);
}

pub(crate) proof fn known_source(sources: Seq<SelectionSource>, uid: u64)
    ensures
        forall|k: int| #[trigger] source_at(sources, uid, k) ==> source_of(sources, Some(uid)) == Some(sources[k]),
        no_source(sources, uid) ==> source_of(sources, Some(uid)) is None,
        source_of(sources, Some(uid)) is None ==> no_source(sources, uid),
{
    first_slot_is_lowest(sources, is_source(uid));
    assert forall|k: int| #[trigger] source_at(sources, uid, k) implies source_of(sources, Some(uid)) == Some(sources[k]) by {
        assert forall|j: int| 0 <= j < k implies !is_source(uid)(#[trigger] sources[j]) by {}
        first_slot_found(sources, is_source(uid), k);
    }
    if source_of(sources, Some(uid)) is None {
        assert forall|j: int| 0 <= j < sources.len() implies (#[trigger] sources[j]).uid != uid by {
            assert(!is_source(uid)(sources[j]));
        }
    }
}

proof fn parked_if_offered(a: DataDevices, b: DataDevices, d: Drag)
    requires
        b.parked@ == a.parked@.push(d).filter(held_by(b.offers@)),
        offered(b.offers@, d.uid),
    ensures
        b.parked@.contains(d),
{
    broadcast use vstd::seq_lib::group_filter_ensures;

    let i = choose|i: int| 0 <= i < b.offers@.len() && (#[trigger] b.offers@[i]).drag == Some(d.uid);
    first_slot_is_lowest(b.offers@, refers(d.uid));
    assert(refers(d.uid)(b.offers@[i]));
    assert(held_by(b.offers@)(d));
    let all = a.parked@.push(d);
    assert(all[all.len() - 1] == d);
    assert(all.filter(held_by(b.offers@)).contains(d));
}

/// On a release over a target that is still there, a drag with a source drops exactly when
/// the target accepted a type and, where the target negotiates, some action was agreed on,
/// whichever it is. A drag without a source always drops.
pub proof fn releases_drop_where_the_target_agreed(
    a: DataDevices,
    b: DataDevices,
    before: Seq<Sent>,
    after: Seq<Sent>,
    d: Drag,
    t: DragTarget,
    sources: Seq<SelectionSource>,
)
    requires
        released(a, b, before, after, false, sources),
        a.drag == Some(d),
        d.target == Some(t),
    ensures
        d.source is Some && d.accepted && d.action != 0 ==> dropped_on(a, b, before, after, d, t, sources),
        d.source is Some && d.accepted && !d.dest_v3 ==> dropped_on(a, b, before, after, d, t, sources),
        d.source is None ==> dropped_on(a, b, before, after, d, t, sources),
        d.source is Some && !d.accepted ==> called_off(a, b, before, after, d, Some(t), sources),
        d.source is Some && d.dest_v3 && d.action == 0 ==> called_off(a, b, before, after, d, Some(t), sources),
{
    each_device_hears(a.devices@, t.client, Event::DndDrop);
    each_device_hears(a.devices@, t.client, Event::DndLeave);
    if let Some(uid) = d.source {
        known_source(sources, uid);
    }
    let news = after.skip(before.len() as int);
    let off = cancellations(sources, d.source);
    let leave = each_device(a.devices@, t.client, Event::DndLeave);
    let drop = each_device(a.devices@, t.client, Event::DndDrop);
    if d.source is None || (d.accepted && (!d.dest_v3 || d.action != 0)) {
        if offered(b.offers@, d.uid) {
            parked_if_offered(a, b, Drag { dropped: true, ..d });
        }
        assert(before =~= after.take(before.len() as int));
        assert(news.take(drop.len() as int) =~= drop);
        if news.len() == drop.len() {
            assert(news =~= drop);
        }
        assert(dropped_on(a, b, before, after, d, t, sources));
    } else {
        assert(before =~= after.take(before.len() as int));
        assert(news =~= leave + off);
        assert(leave =~= news.take(leave.len() as int));
        assert(news.skip(leave.len() as int) =~= off);
        if off.len() == 0 {
            assert(news =~= leave);
        }
        assert(called_off(a, b, before, after, d, Some(t), sources));
    }
}

/// A release over nothing, or over a surface that is destroyed, calls the drag off.
pub proof fn releases_over_nothing_call_off(
    a: DataDevices,
    b: DataDevices,
    before: Seq<Sent>,
    after: Seq<Sent>,
    gone: bool,
    d: Drag,
    sources: Seq<SelectionSource>,
)
    requires
        released(a, b, before, after, gone, sources),
        a.drag == Some(d),
        d.target is None || gone,
    ensures
        called_off(a, b, before, after, d, None, sources),
{
    if let Some(uid) = d.source {
        known_source(sources, uid);
    }
    let news = after.skip(before.len() as int);
    let off = cancellations(sources, d.source);
    assert(before =~= after.take(before.len() as int));
    assert(news =~= off);
    assert(news.skip(0) =~= off);
    assert(Seq::<Sent>::empty() =~= news.take(0));
    if off.len() == 0 {
        assert(news =~= Seq::empty());
    }
}

/// The target's pick wins where both sides allow any of it; else the first of copy, move and
/// ask that both allow; else nothing is agreed on.
pub proof fn negotiation_picks_in_order(source: u32, dest: u32, preferred: u32)
    ensures
        ({
            let r = negotiated(source, dest, preferred);
            let both = source & dest;
            &&& both & preferred != 0 ==> r == preferred
            &&& both & preferred == 0 ==> {
                &&& r == 0 || r == 1 || r == 2 || r == 4
                &&& both & 1 != 0 ==> r == 1
                &&& both & 2 != 0 ==> r == 1 || r == 2
                &&& both & 4 != 0 ==> r == 1 || r == 2 || r == 4
                &&& r != 0 ==> both & r != 0
            }
        }),
{
}

/// A drag that entered a surface and is released before its client answers is called off,
/// whatever an earlier target said.
pub proof fn unanswered_drags_are_called_off(
    a: DataDevices,
    b: DataDevices,
    c: DataDevices,
    s0: Seq<Sent>,
    s1: Seq<Sent>,
    s2: Seq<Sent>,
    d: Drag,
    t: DragTarget,
    serial: u32,
    x: Fixed,
    y: Fixed,
    sources: Seq<SelectionSource>,
    fresh: Seq<ObjectId>,
)
    requires
        entered_target(a, b, s0, s1, t, serial, x, y, sources, fresh),
        released(b, c, s1, s2, false, sources),
        a.drag == Some(d),
        d.source is Some,
    ensures
        b.drag matches Some(e) && e.uid == d.uid && e.source == d.source && e.client == d.client && e.icon == d.icon && e.target
            == Some(t) && called_off(b, c, s1, s2, e, Some(t), sources),
{
    releases_drop_where_the_target_agreed(b, c, s1, s2, b.drag->0, t, sources);
}

/// A target that accepts a type, and states an action that the source allows too, gets the
/// drop; the source hears first which type was accepted.
pub proof fn agreed_drags_drop(
    a: DataDevices,
    b: DataDevices,
    c: DataDevices,
    e: DataDevices,
    s0: Seq<Sent>,
    s1: Seq<Sent>,
    s2: Seq<Sent>,
    s3: Seq<Sent>,
    d: Drag,
    t: DragTarget,
    i: int,
    j: int,
    mime: String,
    actions: u32,
    preferred: u32,
    sources: Seq<SelectionSource>,
    k: int,
)
    requires
        a.drag == Some(d),
        d.target == Some(t),
        !d.dropped,
        a.offers@[i].drag == Some(d.uid),
        a.offers@[j].drag == Some(d.uid),
        d.source is Some,
        source_at(sources, d.source->0, k),
        (sources[k].dnd_actions & actions) & 7 != 0,
        type_accepted(a, b, s0, s1, i, Some(mime), sources),
        actions_stated(b, c, s1, s2, j, actions, preferred, sources),
        released(c, e, s2, s3, false, sources),
    ensures
        s1 == s0.push(sent(sources[k].client, sources[k].id, Event::SourceTarget { mime: Some(mime) })),
        c.drag matches Some(f) && f.uid == d.uid && dropped_on(c, e, s2, s3, f, t, sources),
{
    known_source(sources, d.source->0);
    assert(s1 =~= s0.push(sent(sources[k].client, sources[k].id, Event::SourceTarget { mime: Some(mime) })));
    negotiation_is_mutual(sources[k].dnd_actions, actions, preferred);
    releases_drop_where_the_target_agreed(c, e, s2, s3, c.drag->0, t, sources);
}

/// A target that takes its acceptance back, by accepting no type, is not dropped on.
pub proof fn taken_back_is_not_dropped(
    a: DataDevices,
    b: DataDevices,
    c: DataDevices,
    s0: Seq<Sent>,
    s1: Seq<Sent>,
    s2: Seq<Sent>,
    d: Drag,
    t: DragTarget,
    i: int,
    sources: Seq<SelectionSource>,
)
    requires
        a.drag == Some(d),
        d.target == Some(t),
        !d.dropped,
        a.offers@[i].drag == Some(d.uid),
        d.source is Some,
        type_accepted(a, b, s0, s1, i, None, sources),
        released(b, c, s1, s2, false, sources),
    ensures
        b.drag matches Some(f) && f.uid == d.uid && called_off(b, c, s1, s2, f, Some(t), sources),
{
    releases_drop_where_the_target_agreed(b, c, s1, s2, b.drag->0, t, sources);
}

/// Leaving a target tells each of its devices, cuts its offers loose and forgets what it
/// answered, so that a release right after calls the drag off.
pub proof fn left_targets_are_not_dropped_on(
    a: DataDevices,
    b: DataDevices,
    c: DataDevices,
    s0: Seq<Sent>,
    s1: Seq<Sent>,
    s2: Seq<Sent>,
    d: Drag,
    t: DragTarget,
    sources: Seq<SelectionSource>,
)
    requires
        a.drag == Some(d),
        d.target == Some(t),
        left_target(a, b, s0, s1, false),
        released(b, c, s1, s2, false, sources),
    ensures
        s1 == s0 + each_device(a.devices@, t.client, Event::DndLeave),
        forall|i: int| 0 <= i < a.offers@.len() && a.offers@[i].listed == Some(d.uid) ==> (#[trigger] b.offers@[i]).drag is None,
        b.drag matches Some(f) && f.uid == d.uid && f.source == d.source && called_off(b, c, s1, s2, f, None, sources),
{
    each_device_hears(a.devices@, t.client, Event::DndLeave);
    releases_over_nothing_call_off(b, c, s1, s2, false, b.drag->0, sources);
}

/// After a drop the target ends the transfer: a finish tells a source that negotiates that
/// it is done and cuts the offer loose, so that destroying the offer then says nothing more;
/// destroying it without a finish calls the source off.
pub proof fn dropped_offers_finish_or_call_off(
    a: DataDevices,
    b: DataDevices,
    c: DataDevices,
    e: DataDevices,
    s0: Seq<Sent>,
    s1: Seq<Sent>,
    s2: Seq<Sent>,
    s3: Seq<Sent>,
    d: Drag,
    i: int,
    sources: Seq<SelectionSource>,
    k: int,
)
    requires
        0 <= i < a.offers@.len(),
        session(a, a.offers@[i].drag) == Some(d),
        d.dropped,
        d.source is Some,
        source_at(sources, d.source->0, k),
        sources[k].version >= 3,
        a.offers@[i].version >= 3,
        offer_finished(a, b, s0, s1, i, sources),
        offer_destroyed(b, c, s1, s2, i, sources),
        offer_destroyed(a, e, s0, s3, i, sources),
    ensures
        s1 == s0.push(sent(sources[k].client, sources[k].id, Event::DndFinished)),
        b.offers@[i].drag is None,
        s2 == s1,
        s0.is_prefix_of(s3) && source_called_off(s3.skip(s0.len() as int), sources[k]),
        e.offers@ == a.offers@.remove(i),
{
    known_source(sources, d.source->0);
    assert(s1 =~= s0.push(sent(sources[k].client, sources[k].id, Event::DndFinished)));
    assert(s2 =~= s1);
    let off = cancellations(sources, d.source);
    assert(s0 =~= s3.take(s0.len() as int));
    assert(s3.skip(s0.len() as int) =~= off);
}

} // verus!
