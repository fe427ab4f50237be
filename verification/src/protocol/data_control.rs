//! Clipboard access without a surface, for copy tools and clipboard managers: devices
//! watch both selections, and sources stand in the same slots as those of windows.
use crate::list::retain;
use crate::output::first_slot;
use crate::protocol::data_device::{selection_set, DataDevices};
use crate::protocol::events::{told_invalid, Out, Sent};
use crate::protocol::interfaces::Interface;
use crate::protocol::primary_selection::{primary_set, resolve_source, unregistered, wanted, PrimaryDevices};
use crate::protocol::selection::{
    add_mime, add_source, all_forgotten, cancellation, forget_all, forget_client, forgotten, named_slot, names_source,
    replaced_events, source_of, source_slot, source_starts, tell_selection, told_selection, with_mime, Channel,
    Provider, SelectionSource,
};
use crate::protocol::ObjectId;
use vstd::prelude::*;

verus! {

/// the version from which devices watch the primary selection
pub const PRIMARY_SINCE: u32 = 2;

/// A watcher and setter of selections.
#[derive(Clone, Copy, Debug, PartialEq, Eq, Structural)]
pub struct DataControlDevice {
    pub id: ObjectId,
    pub client: u32,
    pub version: u32,
}

#[derive(Clone, Copy, Debug, PartialEq, Eq, Structural)]
pub struct DataControlOffer {
    pub id: ObjectId,
    pub client: u32,
    /// identity of the source
    pub source: u64,
}

pub struct DataControl {
    pub devices: Vec<DataControlDevice>,
    pub offers: Vec<DataControlOffer>,
}

/// Whether a device hears of a selection.
pub open spec fn hears(d: DataControlDevice, primary: bool) -> bool {
    !primary || d.version >= PRIMARY_SINCE
}

/// How many of the first `n` devices hear of a selection.
pub open spec fn watchers_told(devs: Seq<DataControlDevice>, n: nat, primary: bool) -> nat
    decreases n,
{
    if n == 0 || n > devs.len() {
        0
    } else {
        watchers_told(devs, (n - 1) as nat, primary) + (if hears(devs[n - 1], primary) { 1nat } else { 0nat })
    }
}

pub open spec fn channel(primary: bool) -> Channel {
    if primary { Channel::ControlPrimary } else { Channel::Control }
}

/// What a device is told of a selection.
pub open spec fn told_watcher(d: DataControlDevice, primary: bool, id: ObjectId, sel: Option<SelectionSource>) -> Seq<Sent> {
    if hears(d, primary) {
        told_selection(channel(primary), d.client, d.id, id, sel)
    } else {
        Seq::empty()
    }
}

/// What the first `n` devices are told of a selection; offers take ids in turn, from
/// the one at `from`.
pub open spec fn watcher_events(
    devs: Seq<DataControlDevice>,
    n: nat,
    sel: Option<SelectionSource>,
    primary: bool,
    fresh: Seq<ObjectId>,
    from: nat,
) -> Seq<Sent>
    decreases n,
{
    if n == 0 || n > devs.len() {
        Seq::empty()
    } else {
        watcher_events(devs, (n - 1) as nat, sel, primary, fresh, from) + told_watcher(
            devs[n - 1],
            primary,
            fresh[(from + watchers_told(devs, (n - 1) as nat, primary)) as int],
            sel,
        )
    }
}

/// The offers that come with it.
pub open spec fn watcher_offers(
    devs: Seq<DataControlDevice>,
    n: nat,
    sel: Option<SelectionSource>,
    primary: bool,
    fresh: Seq<ObjectId>,
    from: nat,
) -> Seq<DataControlOffer>
    decreases n,
{
    if n == 0 || n > devs.len() || sel is None {
        Seq::empty()
    } else {
        let front = watcher_offers(devs, (n - 1) as nat, sel, primary, fresh, from);
        if hears(devs[n - 1], primary) {
            front.push(
                DataControlOffer {
                    id: fresh[(from + watchers_told(devs, (n - 1) as nat, primary)) as int],
                    client: devs[n - 1].client,
                    source: sel->0.uid,
                },
            )
        } else {
            front
        }
    }
}

proof fn watchers_grow(devs: Seq<DataControlDevice>, a: nat, b: nat, primary: bool)
    requires
        a <= b <= devs.len(),
    ensures
        watchers_told(devs, a, primary) <= watchers_told(devs, b, primary) <= b,
    decreases b,
{
    if a < b {
        watchers_grow(devs, a, (b - 1) as nat, primary);
    } else if b > 0 {
        watchers_grow(devs, (b - 1) as nat, (b - 1) as nat, primary);
    }
}

pub open spec fn not_device_of(client: u32) -> spec_fn(DataControlDevice) -> bool {
    |d: DataControlDevice| d.client != client
}

pub open spec fn not_offer_of(client: u32) -> spec_fn(DataControlOffer) -> bool {
    |o: DataControlOffer| o.client != client
}

impl DataControl {
    pub fn new() -> (c: DataControl)
        ensures
            c.devices@.len() == 0,
            c.offers@.len() == 0,
    {
        DataControl { devices: Vec::new(), offers: Vec::new() }
    }

    /// A client is gone. A selection that it provides stays in its slot.
    pub fn drop_client(&mut self, sources: &mut Vec<SelectionSource>, client: u32)
        ensures
            final(self).devices@ == old(self).devices@.filter(not_device_of(client)),
            final(self).offers@ == old(self).offers@.filter(not_offer_of(client)),
            final(sources)@ == forgotten(old(sources)@, Provider::Control, client),
    {
        retain(
            &mut self.devices,
            |d: &DataControlDevice| -> (b: bool) ensures b == (d.client != client) { d.client != client },
            Ghost(not_device_of(client)),
        );
        retain(
            &mut self.offers,
            |o: &DataControlOffer| -> (b: bool) ensures b == (o.client != client) { o.client != client },
            Ghost(not_offer_of(client)),
        );
        forget_client(sources, Provider::Control, client);
    }

    pub fn clear(&mut self, sources: &mut Vec<SelectionSource>)
        ensures
            final(self).devices@.len() == 0,
            final(self).offers == old(self).offers,
            final(sources)@ == all_forgotten(old(sources)@, Provider::Control),
    {
        self.devices = Vec::new();
        forget_all(sources, Provider::Control);
    }
}

/// One of the two selections moved: every watcher gets a fresh offer. `selection` is
/// the identity of the provider, `fresh` are unused server ids, used from the one at
/// `from`.
pub fn selection_changed(
    control: &mut DataControl,
    sources: &Vec<SelectionSource>,
    selection: Option<u64>,
    primary: bool,
    fresh: &Vec<ObjectId>,
    from: usize,
    out: &mut Out,
)
    requires
        source_of(sources@, selection) is Some ==> fresh@.len() >= from + watchers_told(
            old(control).devices@,
            old(control).devices@.len(),
            primary,
        ),
    ensures
        final(control).devices == old(control).devices,
        final(control).offers@ == old(control).offers@ + watcher_offers(
            old(control).devices@,
            old(control).devices@.len(),
            source_of(sources@, selection),
            primary,
            fresh@,
            from as nat,
        ),
        final(out).sent@ == old(out).sent@ + watcher_events(
            old(control).devices@,
            old(control).devices@.len(),
            source_of(sources@, selection),
            primary,
            fresh@,
            from as nat,
        ),
{
    let ghost sel = source_of(sources@, selection);
    let ghost devs = control.devices@;
    let ghost start = out.sent@;
    let ghost had = control.offers@;
    let slot: Option<usize> = source_slot(sources, selection);
    let n: usize = control.devices.len();
    let ids: usize = fresh.len();
    let mut used: usize = 0;
    assert(start + Seq::<Sent>::empty() =~= start);
    assert(had + Seq::<DataControlOffer>::empty() =~= had);
    for i in 0..n
        invariant
            n == devs.len(),
            ids == fresh@.len(),
            devs == control.devices@,
            control.devices == old(control).devices,
            sel == source_of(sources@, selection),
            sel is Some <==> slot is Some,
            slot matches Some(k) ==> k < sources@.len() && sel == Some(sources@[k as int]),
            sel is Some ==> fresh@.len() >= from + watchers_told(devs, n as nat, primary),
            used == (if sel is Some { watchers_told(devs, i as nat, primary) } else { 0 }),
            out.sent@ == start + watcher_events(devs, i as nat, sel, primary, fresh@, from as nat),
            control.offers@ == had + watcher_offers(devs, i as nat, sel, primary, fresh@, from as nat),
    {
        proof {
            watchers_grow(devs, (i + 1) as nat, n as nat, primary);
        }
        let d: DataControlDevice = control.devices[i];
        let mut id: ObjectId = ObjectId(0);
        if !primary || d.version >= PRIMARY_SINCE {
            if slot.is_some() {
                id = fresh[from + used];
                used = used + 1;
            }
        }
        let offer: Option<DataControlOffer> = send_selection(&d, sources, selection, primary, id, out);
        match offer {
            Some(o) => {
                control.offers.push(o);
            },
            None => {},
        }
        assert(out.sent@ =~= start + watcher_events(devs, (i + 1) as nat, sel, primary, fresh@, from as nat));
        assert(control.offers@ =~= had + watcher_offers(devs, (i + 1) as nat, sel, primary, fresh@, from as nat));
    }
}

/// The selection as a fresh offer, or an empty one; `id` is for the offer.
fn send_selection(
    d: &DataControlDevice,
    sources: &Vec<SelectionSource>,
    selection: Option<u64>,
    primary: bool,
    id: ObjectId,
    out: &mut Out,
) -> (r: Option<DataControlOffer>)
    ensures
        final(out).sent@ == old(out).sent@ + told_watcher(*d, primary, id, source_of(sources@, selection)),
        r == (match source_of(sources@, selection) {
            Some(s) if hears(*d, primary) => Some(DataControlOffer { id, client: d.client, source: s.uid }),
            _ => None,
        }),
{
    assert(out.sent@ + Seq::<Sent>::empty() =~= out.sent@);
    if primary && d.version < PRIMARY_SINCE {
        return None;
    }
    let ch: Channel = if primary { Channel::ControlPrimary } else { Channel::Control };
    match source_slot(sources, selection) {
        Some(k) => {
            tell_selection(out, ch, d.client, d.id, id, Some(&sources[k]));
            Some(DataControlOffer { id, client: d.client, source: sources[k].uid })
        },
        None => {
            proof {
                assert(told_selection(ch, d.client, d.id, id, None) == told_selection(
                    ch,
                    d.client,
                    d.id,
                    ObjectId(0),
                    None,
                ));
            }
            tell_selection(out, ch, d.client, d.id, ObjectId(0), None);
            None
        },
    }
}

pub struct DataControlManagerGlobal;

impl DataControlManagerGlobal {
    pub fn interface(&self) -> (r: Interface)
        ensures
            r is ZwlrDataControlManagerV1,
    {
        Interface::ZwlrDataControlManagerV1
    }

    pub fn version(&self) -> (r: u32)
        ensures
            r == 2,
    {
        2
    }

    pub fn bind(&self, client: u32, id: ObjectId, version: u32) -> (r: DataControlManager)
        ensures
            r == (DataControlManager { id, client, version }),
    {
        DataControlManager { id, client, version }
    }
}

#[derive(Clone, Copy, Debug, PartialEq, Eq, Structural)]
pub struct DataControlManager {
    pub id: ObjectId,
    pub client: u32,
    pub version: u32,
}

/// The offer of a selection to a device, if there is one.
pub open spec fn offered(d: DataControlDevice, primary: bool, id: ObjectId, sel: Option<SelectionSource>) -> Seq<
    DataControlOffer,
> {
    match sel {
        Some(s) if hears(d, primary) => seq![DataControlOffer { id, client: d.client, source: s.uid }],
        _ => Seq::empty(),
    }
}

impl DataControlManager {
    /// A source; `uid` is a number never used before.
    pub fn create_data_source(&self, sources: &mut Vec<SelectionSource>, id: ObjectId, uid: u64) -> (r: DataControlSource)
        ensures
            r == (DataControlSource { id, client: self.client, uid }),
            final(sources)@.len() == old(sources)@.len() + 1,
            final(sources)@.drop_last() == old(sources)@,
            source_starts(final(sources)@.last(), uid, Provider::Control, self.client, id, self.version),
    {
        add_source(sources, uid, Provider::Control, self.client, id, self.version);
        DataControlSource { id, client: self.client, uid }
    }

    /// A device, which learns right away what both clipboards hold. The two ids are
    /// for the offers.
    pub fn get_data_device(
        &self,
        control: &mut DataControl,
        sources: &Vec<SelectionSource>,
        selection: Option<u64>,
        primary: Option<u64>,
        id: ObjectId,
        fresh: (ObjectId, ObjectId),
        out: &mut Out,
    ) -> (r: DataControlDevice)
        ensures
            r == (DataControlDevice { id, client: self.client, version: self.version }),
            final(control).devices@ == old(control).devices@.push(r),
            final(control).offers@ == old(control).offers@ + offered(
                r,
                false,
                fresh.0,
                source_of(sources@, selection),
            ) + offered(r, true, fresh.1, source_of(sources@, primary)),
            final(out).sent@ == old(out).sent@ + told_watcher(r, false, fresh.0, source_of(sources@, selection))
                + told_watcher(r, true, fresh.1, source_of(sources@, primary)),
    {
        let d = DataControlDevice { id, client: self.client, version: self.version };
        control.devices.push(d);
        let a: Option<DataControlOffer> = send_selection(&d, sources, selection, false, fresh.0, out);
        let b: Option<DataControlOffer> = send_selection(&d, sources, primary, true, fresh.1, out);
        match a {
            Some(o) => control.offers.push(o),
            None => {},
        }
        match b {
            Some(o) => control.offers.push(o),
            None => {},
        }
        assert(control.offers@ =~= old(control).offers@ + offered(
            d,
            false,
            fresh.0,
            source_of(sources@, selection),
        ) + offered(d, true, fresh.1, source_of(sources@, primary)));
        d
    }
}

/// The object of a source.
#[derive(Clone, Copy, Debug, PartialEq, Eq, Structural)]
pub struct DataControlSource {
    pub id: ObjectId,
    pub client: u32,
    pub uid: u64,
}

impl DataControlSource {
    pub fn offer(&self, sources: &mut Vec<SelectionSource>, mime: String)
        ensures
            with_mime(old(sources)@, final(sources)@, self.uid, mime),
    {
        add_mime(sources, self.uid, mime);
    }
}

pub open spec fn not_device(client: u32, id: ObjectId) -> spec_fn(DataControlDevice) -> bool {
    |d: DataControlDevice| !(d.client == client && d.id == id)
}

impl DataControlDevice {
    pub fn destroy(&self, control: &mut DataControl)
        ensures
            final(control).devices@ == old(control).devices@.filter(not_device(self.client, self.id)),
            *final(control) == (DataControl { devices: final(control).devices, ..*old(control) }),
    {
        let (client, id): (u32, ObjectId) = (self.client, self.id);
        retain(
            &mut control.devices,
            |d: &DataControlDevice| -> (b: bool) ensures b == !(d.client == client && d.id == id) { !(d.client == client && d.id.0 == id.0) },
            Ghost(not_device(client, id)),
        );
    }
}

/// What setting a selection through a control device comes to.
pub open spec fn control_set(
    w: World,
    v: World,
    before: Out,
    after: Out,
    src: Option<u64>,
    primary: bool,
    sources: Seq<SelectionSource>,
    focus: Option<u32>,
    fresh: Seq<ObjectId>,
) -> bool {
    if primary {
        v.data == w.data && primary_set(
            w.primary,
            v.primary,
            w.control,
            v.control,
            before,
            after,
            src,
            sources,
            focus,
            fresh,
        )
    } else {
        v.primary == w.primary && selection_set(
            w.data,
            v.data,
            w.control,
            v.control,
            before,
            after,
            src,
            sources,
            focus,
            fresh,
        )
    }
}

/// Both clipboards, and who watches them.
pub struct World {
    pub data: DataDevices,
    pub primary: PrimaryDevices,
    pub control: DataControl,
}

/// How many ids a change of a selection takes.
pub open spec fn world_ids(w: World, primary: bool, sel: Option<SelectionSource>, focus: Option<u32>) -> nat {
    if primary {
        crate::protocol::primary_selection::ids_needed(w.primary, w.control, sel, focus)
    } else {
        crate::protocol::data_device::ids_needed(w.data, w.control, sel, focus)
    }
}

impl DataControlDevice {
    fn set_either(
        &self,
        out: &mut Out,
        source: ObjectId,
        primary: bool,
        sources: &Vec<SelectionSource>,
        w: &mut World,
        focus: Option<u32>,
        fresh: &Vec<ObjectId>,
    ) -> (r: bool)
        requires
            wanted(sources@, Provider::Control, self.client, source) matches Some(src) ==> fresh@.len() >= world_ids(
                *old(w),
                primary,
                source_of(sources@, src),
                focus,
            ),
        ensures
            match wanted(sources@, Provider::Control, self.client, source) {
                None => !r && *final(w) == *old(w) && told_invalid(*old(out), *final(out), self.client, source),
                Some(src) => r && control_set(
                    *old(w),
                    *final(w),
                    *old(out),
                    *final(out),
                    src,
                    primary,
                    sources@,
                    focus,
                    fresh@,
                ),
            },
    {
        match resolve_source(sources, Provider::Control, self.client, source) {
            None => {
                out.invalid_object(self.client, source);
                false
            },
            Some(src) => {
                if primary {
                    w.primary.set_selection_source(src, sources, focus, &mut w.control, fresh, out);
                } else {
                    w.data.set_selection_source(src, sources, focus, &mut w.control, fresh, out);
                }
                true
            },
        }
    }

    /// Sets the selection to a source of the client. `true` when it was set: then the
    /// x11 bridge follows.
    pub fn set_selection(
        &self,
        out: &mut Out,
        source: ObjectId,
        sources: &Vec<SelectionSource>,
        w: &mut World,
        focus: Option<u32>,
        fresh: &Vec<ObjectId>,
    ) -> (r: bool)
        requires
            wanted(sources@, Provider::Control, self.client, source) matches Some(src) ==> fresh@.len() >= world_ids(
                *old(w),
                false,
                source_of(sources@, src),
                focus,
            ),
        ensures
            match wanted(sources@, Provider::Control, self.client, source) {
                None => !r && *final(w) == *old(w) && told_invalid(*old(out), *final(out), self.client, source),
                Some(src) => r && control_set(
                    *old(w),
                    *final(w),
                    *old(out),
                    *final(out),
                    src,
                    false,
                    sources@,
                    focus,
                    fresh@,
                ),
            },
    {
        self.set_either(out, source, false, sources, w, focus, fresh)
    }

    /// Sets the primary selection in the same way.
    pub fn set_primary_selection(
        &self,
        out: &mut Out,
        source: ObjectId,
        sources: &Vec<SelectionSource>,
        w: &mut World,
        focus: Option<u32>,
        fresh: &Vec<ObjectId>,
    ) -> (r: bool)
        requires
            wanted(sources@, Provider::Control, self.client, source) matches Some(src) ==> fresh@.len() >= world_ids(
                *old(w),
                true,
                source_of(sources@, src),
                focus,
            ),
        ensures
            match wanted(sources@, Provider::Control, self.client, source) {
                None => !r && *final(w) == *old(w) && told_invalid(*old(out), *final(out), self.client, source),
                Some(src) => r && control_set(
                    *old(w),
                    *final(w),
                    *old(out),
                    *final(out),
                    src,
                    true,
                    sources@,
                    focus,
                    fresh@,
                ),
            },
    {
        self.set_either(out, source, true, sources, w, focus, fresh)
    }
}

/// A selection was emptied, if it was to be.
pub open spec fn emptied(
    w: World,
    v: World,
    before: Out,
    after: Out,
    wanted: bool,
    primary: bool,
    sources: Seq<SelectionSource>,
    focus: Option<u32>,
) -> bool {
    if wanted {
        control_set(w, v, before, after, None, primary, sources, focus, Seq::empty())
    } else {
        v == w && after == before
    }
}

impl DataControlSource {
    /// The source that requests know this object by.
    pub open spec fn known(self, sources: Seq<SelectionSource>) -> Option<u64> {
        match first_slot(sources, names_source(Provider::Control, self.client, self.id)) {
            Some(k) => Some(sources[k].uid),
            None => None,
        }
    }

    /// A selection is this source.
    pub open spec fn provides(self, sources: Seq<SelectionSource>, selection: Option<u64>) -> bool {
        self.known(sources) is Some && selection == self.known(sources)
    }

    /// The source goes, and leaves each selection that it is empty: its own object is
    /// told of the cancellation, then the client with the keyboard and the watchers of
    /// the change.
    pub fn destroy(&self, sources: &mut Vec<SelectionSource>, w: &mut World, focus: Option<u32>, out: &mut Out)
        ensures
            unregistered(old(sources)@, final(sources)@, Provider::Control, self.client, self.id),
            exists|mid: World, at: Out|
                #[trigger] emptied(
                    *old(w),
                    mid,
                    *old(out),
                    at,
                    self.provides(old(sources)@, old(w).data.selection),
                    false,
                    final(sources)@,
                    focus,
                ) && emptied(
                    mid,
                    *final(w),
                    at,
                    *final(out),
                    self.provides(old(sources)@, old(w).primary.selection),
                    true,
                    final(sources)@,
                    focus,
                ),
    {
        let known: Option<u64> = match named_slot(sources, Provider::Control, self.client, self.id) {
            None => None,
            Some(k) => {
                let uid: u64 = sources[k].uid;
                sources[k].registered = false;
                assert(sources@ =~= old(sources)@.update(
                    k as int,
                    SelectionSource { registered: false, ..old(sources)@[k as int] },
                ));
                Some(uid)
            },
        };
        let none: Vec<ObjectId> = Vec::new();
        assert(none@ =~= Seq::<ObjectId>::empty());
        let in_data: bool = match (known, w.data.selection) {
            (Some(a), Some(b)) => a == b,
            _ => false,
        };
        if in_data {
            w.data.set_selection_source(None, sources, focus, &mut w.control, &none, out);
        }
        let ghost (mid, at) = (*w, *out);
        let in_primary: bool = match (known, w.primary.selection) {
            (Some(a), Some(b)) => a == b,
            _ => false,
        };
        if in_primary {
            w.primary.set_selection_source(None, sources, focus, &mut w.control, &none, out);
        }
        assert(in_data == self.provides(old(sources)@, old(w).data.selection));
        assert(in_primary == self.provides(old(sources)@, old(w).primary.selection));
        assert(emptied(
            *old(w),
            mid,
            *old(out),
            at,
            self.provides(old(sources)@, old(w).data.selection),
            false,
            sources@,
            focus,
        ));
    }
}

/// A selection that another provider takes over is cancelled, once, before anything
/// else happens; one that stays is not.
pub proof fn replaced_providers_are_cancelled(sources: Seq<SelectionSource>, was: Option<u64>, now: Option<u64>)
    requires
        source_of(sources, was) is Some,
    ensures
        was != now ==> replaced_events(sources, was, now) == seq![cancellation(source_of(sources, was)->0)],
        was == now ==> replaced_events(sources, was, now).len() == 0,
{
}

} // verus!
