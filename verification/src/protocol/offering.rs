//! Who is told of a selection, and how: each device of the client with the keyboard, and
//! each watcher, gets an offer of its own.
use crate::protocol::data_control::{
    hears, watcher_events, watcher_offers, watchers_told, DataControl, DataControlDevice,
};
use crate::protocol::data_device::{self, held_by, lives, parks_source, refers, selection_set, torn_down, DataDevices, Drag, WlDataDevice};
use crate::protocol::dragging::{each_device, each_device_hears, known_source, no_source, offered, source_at, source_called_off};
use crate::protocol::events::{Event, Sent};
use crate::protocol::primary_selection::{self, primary_set, PrimaryDevice, PrimaryDevices};
use crate::protocol::selection::{
    cancellation, delivery, replaced_events, source_of, told_selection, Channel, Provider, SelectionSource,
};
use crate::protocol::ObjectId;
use crate::output::{first_slot, first_slot_found, first_slot_is_lowest};
use vstd::prelude::*;

verus! {

/// The event announces an offer.
pub open spec fn announces(e: Event, ch: Channel, offer: ObjectId) -> bool {
    match ch {
        Channel::Data => e matches Event::DataOffer { id } && id == offer,
        Channel::Primary => e matches Event::PrimaryDataOffer { id } && id == offer,
        Channel::Control | Channel::ControlPrimary => e matches Event::ControlDataOffer { id } && id == offer,
    }
}

/// The event names a type of an offer.
pub open spec fn names_type(e: Event, ch: Channel, ty: String) -> bool {
    match ch {
        Channel::Data => e matches Event::OfferMime { mime } && mime == ty,
        Channel::Primary => e matches Event::PrimaryMime { mime } && mime == ty,
        Channel::Control | Channel::ControlPrimary => e matches Event::ControlMime { mime } && mime == ty,
    }
}

/// The event says which offer is the selection.
pub open spec fn selects(e: Event, ch: Channel, offer: ObjectId) -> bool {
    match ch {
        Channel::Data => e matches Event::Selection { id } && id == offer,
        Channel::Primary => e matches Event::PrimarySelection { id } && id == offer,
        Channel::Control => e matches Event::ControlSelection { id } && id == offer,
        Channel::ControlPrimary => e matches Event::ControlPrimarySelection { id } && id == offer,
    }
}

/// From `p` on, a device hears of an offer, of its types in order, and then that it is the
/// selection.
pub open spec fn introduces(
    news: Seq<Sent>,
    p: int,
    ch: Channel,
    client: u32,
    device: ObjectId,
    offer: ObjectId,
    mimes: Seq<String>,
) -> bool {
    let n = mimes.len();
    &&& 0 <= p && p + n + 2 <= news.len()
    &&& news[p].client == client && news[p].object == device && announces(news[p].event, ch, offer)
    &&& forall|i: int|
        p + 1 <= i < p + 1 + n ==> (#[trigger] news[i]).client == client && news[i].object == offer && names_type(
            news[i].event,
            ch,
            mimes[i - p - 1],
        )
    &&& news[p + 1 + n].client == client && news[p + 1 + n].object == device && selects(news[p + 1 + n].event, ch, offer)
}

/// At `p` a device hears that there is no selection.
pub open spec fn empties(news: Seq<Sent>, p: int, ch: Channel, client: u32, device: ObjectId) -> bool {
    &&& 0 <= p < news.len()
    &&& news[p].client == client && news[p].object == device && selects(news[p].event, ch, ObjectId(0))
}

proof fn told_is_introduced(ch: Channel, client: u32, device: ObjectId, id: ObjectId, s: Option<SelectionSource>)
    ensures
        s matches Some(x) ==> introduces(told_selection(ch, client, device, id, s), 0, ch, client, device, id, x.mimes@),
        s is None ==> empties(told_selection(ch, client, device, id, s), 0, ch, client, device),
        all_to(told_selection(ch, client, device, id, s), client),
{
}

proof fn introduced_inside(
    a: Seq<Sent>,
    b: Seq<Sent>,
    c: Seq<Sent>,
    p: int,
    ch: Channel,
    client: u32,
    device: ObjectId,
    offer: ObjectId,
    mimes: Seq<String>,
)
    ensures
        introduces(b, p, ch, client, device, offer, mimes) ==> introduces(
            a + b + c,
            a.len() + p,
            ch,
            client,
            device,
            offer,
            mimes,
        ),
        empties(b, p, ch, client, device) ==> empties(a + b + c, a.len() + p, ch, client, device),
{
    if introduces(b, p, ch, client, device, offer, mimes) {
        let all = a + b + c;
        let q = a.len() + p;
        assert forall|i: int| q + 1 <= i < q + 1 + mimes.len() implies (#[trigger] all[i]).client == client && all[i].object
            == offer && names_type(all[i].event, ch, mimes[i - q - 1]) by {
            assert(all[i] == b[i - a.len()]);
        }
    }
}

/// Every event goes to that client.
pub open spec fn all_to(news: Seq<Sent>, client: u32) -> bool {
    forall|i: int| 0 <= i < news.len() ==> (#[trigger] news[i]).client == client
}

/// The offers of a change are made in the order of the data devices of the client, with
/// the fresh ids in turn.
proof fn data_offers_in_turn(
    devs: Seq<WlDataDevice>,
    n: nat,
    client: u32,
    s: SelectionSource,
    fresh: Seq<ObjectId>,
    drag: Option<u64>,
    i: int,
)
    requires
        n <= devs.len(),
    ensures
        ({
            let made = data_device::new_offers(devs, n, client, Some(s), fresh, drag);
            &&& made.len() == data_device::devices_of(devs, n, client)
            &&& forall|m: int| 0 <= m < made.len() ==> (#[trigger] made[m]).id == fresh[m] && made[m].client == client
                && made[m].source == s.uid && made[m].drag == drag
            &&& 0 <= i < n && devs[i].client == client ==> {
                let m = data_device::devices_of(devs, i as nat, client) as int;
                m < made.len() && made[m].version == devs[i].version
            }
        }),
    decreases n,
{
    if n > 0 {
        data_offers_in_turn(devs, (n - 1) as nat, client, s, fresh, drag, i);
    }
}

/// Each data device of the client is told, with the offer made for it.
proof fn data_devices_hear(
    devs: Seq<WlDataDevice>,
    n: nat,
    client: u32,
    sel: Option<SelectionSource>,
    fresh: Seq<ObjectId>,
    i: int,
) -> (p: int)
    requires
        n <= devs.len(),
    ensures
        all_to(data_device::told_devices(devs, n, client, sel, fresh), client),
        0 <= i < n && devs[i].client == client ==> match sel {
            Some(s) => introduces(
                data_device::told_devices(devs, n, client, sel, fresh),
                p,
                Channel::Data,
                client,
                devs[i].id,
                fresh[data_device::devices_of(devs, i as nat, client) as int],
                s.mimes@,
            ),
            None => empties(data_device::told_devices(devs, n, client, sel, fresh), p, Channel::Data, client, devs[i].id),
        },
    decreases n,
{
    if n == 0 {
        0
    } else {
        let q = data_devices_hear(devs, (n - 1) as nat, client, sel, fresh, i);
        let front = data_device::told_devices(devs, (n - 1) as nat, client, sel, fresh);
        let d = devs[n - 1];
        let id = fresh[data_device::devices_of(devs, (n - 1) as nat, client) as int];
        let own = told_selection(Channel::Data, client, d.id, id, sel);
        told_is_introduced(Channel::Data, client, d.id, id, sel);
        let mimes = match sel {
            Some(s) => s.mimes@,
            None => Seq::empty(),
        };
        let none = Seq::<Sent>::empty();
        if d.client == client {
            assert(front + own + none =~= front + own);
            assert(none + front + own =~= front + own);
            if i == n - 1 {
                introduced_inside(front, own, none, 0, Channel::Data, client, d.id, id, mimes);
                front.len() as int
            } else {
                introduced_inside(
                    none,
                    front,
                    own,
                    q,
                    Channel::Data,
                    client,
                    devs[i].id,
                    fresh[data_device::devices_of(devs, i as nat, client) as int],
                    mimes,
                );
                q
            }
        } else {
            q
        }
    }
}

/// The offers of a change are made in the order of the primary devices of the client, with
/// the fresh ids in turn.
proof fn primary_offers_in_turn(
    devs: Seq<PrimaryDevice>,
    n: nat,
    client: u32,
    s: SelectionSource,
    fresh: Seq<ObjectId>,
    i: int,
)
    requires
        n <= devs.len(),
    ensures
        ({
            let made = primary_selection::new_offers(devs, n, client, Some(s), fresh);
            &&& made.len() == primary_selection::devices_of(devs, n, client)
            &&& forall|m: int| 0 <= m < made.len() ==> (#[trigger] made[m]).id == fresh[m] && made[m].client == client
                && made[m].source == s.uid
            &&& 0 <= i < n && devs[i].client == client ==> {
                let m = primary_selection::devices_of(devs, i as nat, client) as int;
                m < made.len() && made[m].version == devs[i].version
            }
        }),
    decreases n,
{
    if n > 0 {
        primary_offers_in_turn(devs, (n - 1) as nat, client, s, fresh, i);
    }
}

/// Each primary device of the client is told, with the offer made for it.
proof fn primary_devices_hear(
    devs: Seq<PrimaryDevice>,
    n: nat,
    client: u32,
    sel: Option<SelectionSource>,
    fresh: Seq<ObjectId>,
    i: int,
) -> (p: int)
    requires
        n <= devs.len(),
    ensures
        all_to(primary_selection::told_devices(devs, n, client, sel, fresh), client),
        0 <= i < n && devs[i].client == client ==> match sel {
            Some(s) => introduces(
                primary_selection::told_devices(devs, n, client, sel, fresh),
                p,
                Channel::Primary,
                client,
                devs[i].id,
                fresh[primary_selection::devices_of(devs, i as nat, client) as int],
                s.mimes@,
            ),
            None => empties(primary_selection::told_devices(devs, n, client, sel, fresh), p, Channel::Primary, client, devs[i].id),
        },
    decreases n,
{
    if n == 0 {
        0
    } else {
        let q = primary_devices_hear(devs, (n - 1) as nat, client, sel, fresh, i);
        let front = primary_selection::told_devices(devs, (n - 1) as nat, client, sel, fresh);
        let d = devs[n - 1];
        let id = fresh[primary_selection::devices_of(devs, (n - 1) as nat, client) as int];
        let own = told_selection(Channel::Primary, client, d.id, id, sel);
        told_is_introduced(Channel::Primary, client, d.id, id, sel);
        let mimes = match sel {
            Some(s) => s.mimes@,
            None => Seq::empty(),
        };
        let none = Seq::<Sent>::empty();
        if d.client == client {
            assert(front + own + none =~= front + own);
            assert(none + front + own =~= front + own);
            if i == n - 1 {
                introduced_inside(front, own, none, 0, Channel::Primary, client, d.id, id, mimes);
                front.len() as int
            } else {
                introduced_inside(
                    none,
                    front,
                    own,
                    q,
                    Channel::Primary,
                    client,
                    devs[i].id,
                    fresh[primary_selection::devices_of(devs, i as nat, client) as int],
                    mimes,
                );
                q
            }
        } else {
            q
        }
    }
}

/// The watchers that hear of a change get their offers in order, after those of the client
/// with the keyboard.
proof fn watcher_offers_in_turn(
    devs: Seq<DataControlDevice>,
    n: nat,
    s: SelectionSource,
    primary: bool,
    fresh: Seq<ObjectId>,
    from: nat,
    i: int,
)
    requires
        n <= devs.len(),
    ensures
        ({
            let made = watcher_offers(devs, n, Some(s), primary, fresh, from);
            &&& made.len() == watchers_told(devs, n, primary)
            &&& forall|m: int| 0 <= m < made.len() ==> (#[trigger] made[m]).id == fresh[from + m] && made[m].source == s.uid
            &&& 0 <= i < n && hears(devs[i], primary) ==> {
                let m = watchers_told(devs, i as nat, primary) as int;
                m < made.len() && made[m].client == devs[i].client
            }
        }),
    decreases n,
{
    if n > 0 {
        watcher_offers_in_turn(devs, (n - 1) as nat, s, primary, fresh, from, i);
    }
}

pub open spec fn control_channel(primary: bool) -> Channel {
    if primary { Channel::ControlPrimary } else { Channel::Control }
}

/// Each watcher that hears is told, with the offer made for it.
proof fn watchers_hear(
    devs: Seq<DataControlDevice>,
    n: nat,
    sel: Option<SelectionSource>,
    primary: bool,
    fresh: Seq<ObjectId>,
    from: nat,
    i: int,
) -> (p: int)
    requires
        n <= devs.len(),
    ensures
        0 <= i < n && hears(devs[i], primary) ==> match sel {
            Some(s) => introduces(
                watcher_events(devs, n, sel, primary, fresh, from),
                p,
                control_channel(primary),
                devs[i].client,
                devs[i].id,
                fresh[(from + watchers_told(devs, i as nat, primary)) as int],
                s.mimes@,
            ),
            None => empties(
                watcher_events(devs, n, sel, primary, fresh, from),
                p,
                control_channel(primary),
                devs[i].client,
                devs[i].id,
            ),
        },
    decreases n,
{
    if n == 0 {
        0
    } else {
        let ch = control_channel(primary);
        let q = watchers_hear(devs, (n - 1) as nat, sel, primary, fresh, from, i);
        let front = watcher_events(devs, (n - 1) as nat, sel, primary, fresh, from);
        let d = devs[n - 1];
        let id = fresh[(from + watchers_told(devs, (n - 1) as nat, primary)) as int];
        let own = crate::protocol::data_control::told_watcher(d, primary, id, sel);
        told_is_introduced(ch, d.client, d.id, id, sel);
        let mimes = match sel {
            Some(s) => s.mimes@,
            None => Seq::empty(),
        };
        let none = Seq::<Sent>::empty();
        assert(front + own + none =~= front + own);
        assert(none + front + own =~= front + own);
        if i == n - 1 {
            introduced_inside(front, own, none, 0, ch, d.client, d.id, id, mimes);
            front.len() as int
        } else {
            introduced_inside(
                none,
                front,
                own,
                q,
                ch,
                devs[i].client,
                devs[i].id,
                fresh[(from + watchers_told(devs, i as nat, primary)) as int],
                mimes,
            );
            q
        }
    }
}

/// Setting the clipboard to a source gives each device of the client with the keyboard an
/// offer of its own, with all the types of the source, and says that it is the selection;
/// setting it to none says that. Nothing else about the devices changes.
pub proof fn data_selections_reach_the_keyboard(
    a: DataDevices,
    b: DataDevices,
    ca: DataControl,
    cb: DataControl,
    before: crate::protocol::events::Out,
    after: crate::protocol::events::Out,
    src: Option<u64>,
    sources: Seq<SelectionSource>,
    client: u32,
    fresh: Seq<ObjectId>,
    i: int,
    k: int,
)
    requires
        selection_set(a, b, ca, cb, before, after, src, sources, Some(client), fresh),
        0 <= i < a.devices@.len(),
        a.devices@[i].client == client,
        src matches Some(u) ==> source_at(sources, u, k),
    ensures
        b.selection == src,
        b.devices == a.devices,
        before.sent@.is_prefix_of(after.sent@),
        src is Some ==> exists|p: int, m: int|
            #![trigger after.sent@[p], b.offers@[m]]
            {
                &&& a.offers@.len() <= m < b.offers@.len()
                &&& b.offers@[m].client == client && b.offers@[m].source == src->0 && b.offers@[m].version
                    == a.devices@[i].version
                &&& before.sent@.len() <= p
                &&& introduces(
                    after.sent@,
                    p,
                    Channel::Data,
                    client,
                    a.devices@[i].id,
                    b.offers@[m].id,
                    sources[k].mimes@,
                )
            },
        src is None ==> exists|p: int|
            before.sent@.len() <= p && #[trigger] empties(after.sent@, p, Channel::Data, client, a.devices@[i].id),
{
    let sel = source_of(sources, src);
    if let Some(u) = src {
        known_source(sources, u);
    }
    let n = a.devices@.len();
    let used = if sel is Some { data_device::focus_ids(a, Some(client)) } else { 0 };
    let first = before.sent@ + replaced_events(sources, a.selection, src);
    let mine = data_device::told_devices(a.devices@, n, client, sel, fresh);
    let rest = watcher_events(ca.devices@, ca.devices@.len(), sel, false, fresh, used);
    assert(after.sent@ == first + mine + rest);
    assert(before.sent@ =~= after.sent@.take(before.sent@.len() as int));
    let q = data_devices_hear(a.devices@, n, client, sel, fresh, i);
    let m = data_device::devices_of(a.devices@, i as nat, client) as int;
    match sel {
        Some(s) => {
            data_offers_in_turn(a.devices@, n, client, s, fresh, None, i);
            introduced_inside(first, mine, rest, q, Channel::Data, client, a.devices@[i].id, fresh[m], s.mimes@);
            let x = b.offers@[a.offers@.len() + m];
            assert(x.id == fresh[m]);
            assert(after.sent@[first.len() + q] == after.sent@[first.len() + q]);
        },
        None => {
            introduced_inside(
                first,
                mine,
                rest,
                q,
                Channel::Data,
                client,
                a.devices@[i].id,
                ObjectId(0),
                Seq::empty(),
            );
            assert(empties(after.sent@, first.len() + q, Channel::Data, client, a.devices@[i].id));
        },
    }
}

/// Setting the clipboard tells every watcher of it too, each with an offer of its own; a
/// provider that is replaced is called off first, and one that stays is not.
pub proof fn data_selections_reach_the_watchers(
    a: DataDevices,
    b: DataDevices,
    ca: DataControl,
    cb: DataControl,
    before: crate::protocol::events::Out,
    after: crate::protocol::events::Out,
    src: Option<u64>,
    sources: Seq<SelectionSource>,
    focus: Option<u32>,
    fresh: Seq<ObjectId>,
    i: int,
    k: int,
)
    requires
        selection_set(a, b, ca, cb, before, after, src, sources, focus, fresh),
        0 <= i < ca.devices@.len(),
        src matches Some(u) ==> source_at(sources, u, k),
    ensures
        cb.devices == ca.devices,
        src is Some ==> exists|p: int, m: int|
            #![trigger after.sent@[p], cb.offers@[m]]
            {
                &&& ca.offers@.len() <= m < cb.offers@.len()
                &&& cb.offers@[m].client == ca.devices@[i].client && cb.offers@[m].source == src->0
                &&& before.sent@.len() <= p
                &&& introduces(
                    after.sent@,
                    p,
                    Channel::Control,
                    ca.devices@[i].client,
                    ca.devices@[i].id,
                    cb.offers@[m].id,
                    sources[k].mimes@,
                )
            },
        src is None ==> exists|p: int|
            before.sent@.len() <= p && #[trigger] empties(
                after.sent@,
                p,
                Channel::Control,
                ca.devices@[i].client,
                ca.devices@[i].id,
            ),
        forall|w: int|
            a.selection is Some && a.selection != src && #[trigger] source_at(sources, a.selection->0, w) ==> {
                &&& before.sent@.len() < after.sent@.len()
                &&& source_called_off(seq![after.sent@[before.sent@.len() as int]], sources[w])
            },
{
    let sel = source_of(sources, src);
    if let Some(u) = src {
        known_source(sources, u);
    }
    if let Some(u) = a.selection {
        known_source(sources, u);
    }
    let used = if sel is Some { data_device::focus_ids(a, focus) } else { 0 };
    let first = before.sent@ + replaced_events(sources, a.selection, src);
    let mine = data_device::told_focus(a, focus, sel, fresh);
    let nd = ca.devices@.len();
    let rest = watcher_events(ca.devices@, nd, sel, false, fresh, used);
    let none = Seq::<Sent>::empty();
    assert(after.sent@ =~= first + mine + rest + none);
    let q = watchers_hear(ca.devices@, nd, sel, false, fresh, used, i);
    let m = watchers_told(ca.devices@, i as nat, false) as int;
    let ch = control_channel(false);
    match sel {
        Some(s) => {
            watcher_offers_in_turn(ca.devices@, nd, s, false, fresh, used, i);
            introduced_inside(
                first + mine,
                rest,
                none,
                q,
                ch,
                ca.devices@[i].client,
                ca.devices@[i].id,
                fresh[used + m],
                s.mimes@,
            );
            let x = cb.offers@[ca.offers@.len() + m];
            assert(x.id == fresh[used + m]);
            assert(after.sent@[(first + mine).len() + q] == after.sent@[(first + mine).len() + q]);
        },
        None => {
            introduced_inside(
                first + mine,
                rest,
                none,
                q,
                ch,
                ca.devices@[i].client,
                ca.devices@[i].id,
                ObjectId(0),
                Seq::empty(),
            );
            assert(empties(after.sent@, (first + mine).len() + q, ch, ca.devices@[i].client, ca.devices@[i].id));
        },
    }
    assert forall|w: int|
        a.selection is Some && a.selection != src && #[trigger] source_at(sources, a.selection->0, w) implies before.sent@.len()
        < after.sent@.len() && source_called_off(seq![after.sent@[before.sent@.len() as int]], sources[w]) by {
        assert(first[before.sent@.len() as int] == cancellation(sources[w]));
    }
}

/// Setting the primary selection to a source gives each device of the client with the keyboard an
/// offer of its own, with all the types of the source, and says that it is the selection;
/// setting it to none says that. Nothing else about the devices changes.
pub proof fn primary_selections_reach_the_keyboard(
    a: PrimaryDevices,
    b: PrimaryDevices,
    ca: DataControl,
    cb: DataControl,
    before: crate::protocol::events::Out,
    after: crate::protocol::events::Out,
    src: Option<u64>,
    sources: Seq<SelectionSource>,
    client: u32,
    fresh: Seq<ObjectId>,
    i: int,
    k: int,
)
    requires
        primary_set(a, b, ca, cb, before, after, src, sources, Some(client), fresh),
        0 <= i < a.devices@.len(),
        a.devices@[i].client == client,
        src matches Some(u) ==> source_at(sources, u, k),
    ensures
        b.selection == src,
        b.devices == a.devices,
        before.sent@.is_prefix_of(after.sent@),
        src is Some ==> exists|p: int, m: int|
            #![trigger after.sent@[p], b.offers@[m]]
            {
                &&& a.offers@.len() <= m < b.offers@.len()
                &&& b.offers@[m].client == client && b.offers@[m].source == src->0 && b.offers@[m].version
                    == a.devices@[i].version
                &&& before.sent@.len() <= p
                &&& introduces(
                    after.sent@,
                    p,
                    Channel::Primary,
                    client,
                    a.devices@[i].id,
                    b.offers@[m].id,
                    sources[k].mimes@,
                )
            },
        src is None ==> exists|p: int|
            before.sent@.len() <= p && #[trigger] empties(after.sent@, p, Channel::Primary, client, a.devices@[i].id),
{
    let sel = source_of(sources, src);
    if let Some(u) = src {
        known_source(sources, u);
    }
    let n = a.devices@.len();
    let used = if sel is Some { primary_selection::focus_ids(a, Some(client)) } else { 0 };
    let first = before.sent@ + replaced_events(sources, a.selection, src);
    let mine = primary_selection::told_devices(a.devices@, n, client, sel, fresh);
    let rest = watcher_events(ca.devices@, ca.devices@.len(), sel, true, fresh, used);
    assert(after.sent@ == first + mine + rest);
    assert(before.sent@ =~= after.sent@.take(before.sent@.len() as int));
    let q = primary_devices_hear(a.devices@, n, client, sel, fresh, i);
    let m = primary_selection::devices_of(a.devices@, i as nat, client) as int;
    match sel {
        Some(s) => {
            primary_offers_in_turn(a.devices@, n, client, s, fresh, i);
            introduced_inside(first, mine, rest, q, Channel::Primary, client, a.devices@[i].id, fresh[m], s.mimes@);
            let x = b.offers@[a.offers@.len() + m];
            assert(x.id == fresh[m]);
            assert(after.sent@[first.len() + q] == after.sent@[first.len() + q]);
        },
        None => {
            introduced_inside(
                first,
                mine,
                rest,
                q,
                Channel::Primary,
                client,
                a.devices@[i].id,
                ObjectId(0),
                Seq::empty(),
            );
            assert(empties(after.sent@, first.len() + q, Channel::Primary, client, a.devices@[i].id));
        },
    }
}

/// Setting the primary selection tells every watcher of it too, each with an offer of its own; a
/// provider that is replaced is called off first, and one that stays is not.
pub proof fn primary_selections_reach_the_watchers(
    a: PrimaryDevices,
    b: PrimaryDevices,
    ca: DataControl,
    cb: DataControl,
    before: crate::protocol::events::Out,
    after: crate::protocol::events::Out,
    src: Option<u64>,
    sources: Seq<SelectionSource>,
    focus: Option<u32>,
    fresh: Seq<ObjectId>,
    i: int,
    k: int,
)
    requires
        primary_set(a, b, ca, cb, before, after, src, sources, focus, fresh),
        0 <= i < ca.devices@.len(),
        ca.devices@[i].version >= 2,
        src matches Some(u) ==> source_at(sources, u, k),
    ensures
        cb.devices == ca.devices,
        src is Some ==> exists|p: int, m: int|
            #![trigger after.sent@[p], cb.offers@[m]]
            {
                &&& ca.offers@.len() <= m < cb.offers@.len()
                &&& cb.offers@[m].client == ca.devices@[i].client && cb.offers@[m].source == src->0
                &&& before.sent@.len() <= p
                &&& introduces(
                    after.sent@,
                    p,
                    Channel::ControlPrimary,
                    ca.devices@[i].client,
                    ca.devices@[i].id,
                    cb.offers@[m].id,
                    sources[k].mimes@,
                )
            },
        src is None ==> exists|p: int|
            before.sent@.len() <= p && #[trigger] empties(
                after.sent@,
                p,
                Channel::ControlPrimary,
                ca.devices@[i].client,
                ca.devices@[i].id,
            ),
        forall|w: int|
            a.selection is Some && a.selection != src && #[trigger] source_at(sources, a.selection->0, w) ==> {
                &&& before.sent@.len() < after.sent@.len()
                &&& source_called_off(seq![after.sent@[before.sent@.len() as int]], sources[w])
            },
{
    let sel = source_of(sources, src);
    if let Some(u) = src {
        known_source(sources, u);
    }
    if let Some(u) = a.selection {
        known_source(sources, u);
    }
    let used = if sel is Some { primary_selection::focus_ids(a, focus) } else { 0 };
    let first = before.sent@ + replaced_events(sources, a.selection, src);
    let mine = primary_selection::told_focus(a, focus, sel, fresh);
    let nd = ca.devices@.len();
    let rest = watcher_events(ca.devices@, nd, sel, true, fresh, used);
    let none = Seq::<Sent>::empty();
    assert(after.sent@ =~= first + mine + rest + none);
    let q = watchers_hear(ca.devices@, nd, sel, true, fresh, used, i);
    let m = watchers_told(ca.devices@, i as nat, true) as int;
    let ch = control_channel(true);
    match sel {
        Some(s) => {
            watcher_offers_in_turn(ca.devices@, nd, s, true, fresh, used, i);
            introduced_inside(
                first + mine,
                rest,
                none,
                q,
                ch,
                ca.devices@[i].client,
                ca.devices@[i].id,
                fresh[used + m],
                s.mimes@,
            );
            let x = cb.offers@[ca.offers@.len() + m];
            assert(x.id == fresh[used + m]);
            assert(after.sent@[(first + mine).len() + q] == after.sent@[(first + mine).len() + q]);
        },
        None => {
            introduced_inside(
                first + mine,
                rest,
                none,
                q,
                ch,
                ca.devices@[i].client,
                ca.devices@[i].id,
                ObjectId(0),
                Seq::empty(),
            );
            assert(empties(after.sent@, (first + mine).len() + q, ch, ca.devices@[i].client, ca.devices@[i].id));
        },
    }
    assert forall|w: int|
        a.selection is Some && a.selection != src && #[trigger] source_at(sources, a.selection->0, w) implies before.sent@.len()
        < after.sent@.len() && source_called_off(seq![after.sent@[before.sent@.len() as int]], sources[w]) by {
        assert(first[before.sent@.len() as int] == cancellation(sources[w]));
    }
}

/// Data is received from the provider of a source, in its words, with the type and the pipe
/// as they were given.
pub proof fn deliveries_go_to_the_provider(s: SelectionSource, mime: String, fd: u32)
    ensures
        ({
            let d = delivery(s, mime, fd);
            &&& d.client == s.client && d.object == s.id
            &&& match s.provider {
                Provider::Primary => d.event == (Event::PrimarySend { mime, fd }),
                Provider::Control => d.event == (Event::ControlSend { mime, fd }),
                Provider::Data | Provider::Foreign => d.event == (Event::SourceSend { mime, fd }),
            }
        }),
{
}

/// A source can be received from exactly while it is there and a request can name it, or a
/// selection is it, or the drag at hand is its, or a dropped one that an offer still holds.
pub proof fn sources_live_while_something_holds_them(
    sources: Seq<SelectionSource>,
    data: DataDevices,
    primary: Option<u64>,
    uid: u64,
    k: int,
)
    requires
        source_at(sources, uid, k) || no_source(sources, uid),
    ensures
        no_source(sources, uid) ==> !lives(sources, data, primary, uid),
        source_at(sources, uid, k) ==> (lives(sources, data, primary, uid) <==> {
            ||| sources[k].registered
            ||| data.selection == Some(uid)
            ||| primary == Some(uid)
            ||| (data.drag is Some && data.drag->0.source == Some(uid))
            ||| exists|j: int|
                0 <= j < data.parked@.len() && (#[trigger] data.parked@[j]).source == Some(uid) && offered(
                    data.offers@,
                    data.parked@[j].uid,
                )
        }),
{
    known_source(sources, uid);
    let p = parks_source(data.offers@, uid);
    first_slot_is_lowest(data.parked@, p);
    assert forall|j: int| 0 <= j < data.parked@.len() implies (p(#[trigger] data.parked@[j]) <==> data.parked@[j].source
        == Some(uid) && offered(data.offers@, data.parked@[j].uid)) by {
        held_is_offered(data.offers@, data.parked@[j]);
    }
}

proof fn held_is_offered(offers: Seq<data_device::WlDataOffer>, d: Drag)
    ensures
        held_by(offers)(d) == offered(offers, d.uid),
{
    first_slot_is_lowest(offers, refers(d.uid));
    if offered(offers, d.uid) {
        let i = choose|i: int| 0 <= i < offers.len() && (#[trigger] offers[i]).drag == Some(d.uid);
        assert(refers(d.uid)(offers[i]));
    }
}

/// A drag that dies out of band is left by its target, whose offers mean nothing any more;
/// no source is called off, as nobody was refused.
pub proof fn torn_down_drags_leave_quietly(
    a: DataDevices,
    b: DataDevices,
    before: crate::protocol::events::Out,
    after: crate::protocol::events::Out,
    gone: bool,
    d: Drag,
)
    requires
        torn_down(a, b, before, after, gone),
        a.drag == Some(d),
    ensures
        b.drag is None,
        d.target is Some && !gone ==> after.sent@ == before.sent@ + each_device(
            a.devices@,
            (d.target->0).client,
            Event::DndLeave,
        ),
        d.target is None || gone ==> after.sent@ == before.sent@,
        b.offers@.len() == a.offers@.len(),
        forall|i: int|
            0 <= i < a.offers@.len() && a.offers@[i].listed == Some(d.uid) ==> (#[trigger] b.offers@[i]).drag is None,
{
    if let Some(t) = d.target {
        each_device_hears(a.devices@, t.client, Event::DndLeave);
    }
    assert(before.sent@ + Seq::<Sent>::empty() =~= before.sent@);
}

} // verus!
