//! The middle-click clipboard: sources carry types, whoever has the keyboard gets a
//! fresh offer, and receiving hands a pipe through to the source.
use crate::list::retain;
use crate::output::first_slot;
use crate::protocol::data_control::{selection_changed, watcher_events, watcher_offers, watchers_told, DataControl};
use crate::protocol::events::{told_invalid, Out, Sent};
use crate::protocol::interfaces::Interface;
use crate::protocol::selection::{
    add_mime, add_source, all_forgotten, cancel_replaced, forget_all, forget_client, forgotten, named_slot,
    names_source, replaced_events, source_of, source_slot, source_starts, tell_selection, told_selection, with_mime,
    Channel, Provider, SelectionSource,
};
use crate::protocol::ObjectId;
use vstd::prelude::*;

verus! {

#[derive(Clone, Copy, Debug, PartialEq, Eq, Structural)]
pub struct PrimaryDevice {
    pub id: ObjectId,
    pub client: u32,
    pub version: u32,
}

#[derive(Clone, Copy, Debug, PartialEq, Eq, Structural)]
pub struct PrimaryOffer {
    pub id: ObjectId,
    pub client: u32,
    pub version: u32,
    /// identity of the source
    pub source: u64,
}

/// The primary selection of the seat.
pub struct PrimaryDevices {
    pub devices: Vec<PrimaryDevice>,
    /// identity of the provider
    pub selection: Option<u64>,
    pub offers: Vec<PrimaryOffer>,
}

/// How many of the first `n` devices are a client's.
pub open spec fn devices_of(devs: Seq<PrimaryDevice>, n: nat, client: u32) -> nat
    decreases n,
{
    if n == 0 || n > devs.len() {
        0
    } else {
        devices_of(devs, (n - 1) as nat, client) + (if devs[n - 1].client == client { 1nat } else { 0nat })
    }
}

/// What a client's devices among the first `n` are told of a selection; offers take
/// ids in turn.
pub open spec fn told_devices(
    devs: Seq<PrimaryDevice>,
    n: nat,
    client: u32,
    sel: Option<SelectionSource>,
    fresh: Seq<ObjectId>,
) -> Seq<Sent>
    decreases n,
{
    if n == 0 || n > devs.len() {
        Seq::empty()
    } else {
        let front = told_devices(devs, (n - 1) as nat, client, sel, fresh);
        if devs[n - 1].client == client {
            front + told_selection(
                Channel::Primary,
                client,
                devs[n - 1].id,
                fresh[devices_of(devs, (n - 1) as nat, client) as int],
                sel,
            )
        } else {
            front
        }
    }
}

/// The offers that come with it.
pub open spec fn new_offers(
    devs: Seq<PrimaryDevice>,
    n: nat,
    client: u32,
    sel: Option<SelectionSource>,
    fresh: Seq<ObjectId>,
) -> Seq<PrimaryOffer>
    decreases n,
{
    if n == 0 || n > devs.len() || sel is None {
        Seq::empty()
    } else {
        let front = new_offers(devs, (n - 1) as nat, client, sel, fresh);
        if devs[n - 1].client == client {
            front.push(
                PrimaryOffer {
                    id: fresh[devices_of(devs, (n - 1) as nat, client) as int],
                    client,
                    version: devs[n - 1].version,
                    source: sel->0.uid,
                },
            )
        } else {
            front
        }
    }
}

proof fn devices_of_grows(devs: Seq<PrimaryDevice>, a: nat, b: nat, client: u32)
    requires
        a <= b <= devs.len(),
    ensures
        devices_of(devs, a, client) <= devices_of(devs, b, client) <= b,
    decreases b,
{
    if a < b {
        devices_of_grows(devs, a, (b - 1) as nat, client);
    } else if b > 0 {
        devices_of_grows(devs, (b - 1) as nat, (b - 1) as nat, client);
    }
}

pub open spec fn not_device_of(client: u32) -> spec_fn(PrimaryDevice) -> bool {
    |d: PrimaryDevice| d.client != client
}

pub open spec fn not_offer_of(client: u32) -> spec_fn(PrimaryOffer) -> bool {
    |o: PrimaryOffer| o.client != client
}

pub open spec fn not_device(client: u32, id: ObjectId) -> spec_fn(PrimaryDevice) -> bool {
    |d: PrimaryDevice| !(d.client == client && d.id == id)
}

/// How many ids a change of the selection takes.
pub open spec fn ids_needed(p: PrimaryDevices, control: DataControl, sel: Option<SelectionSource>, focus: Option<u32>) -> nat {
    if sel is None {
        0
    } else {
        focus_ids(p, focus) + watchers_told(control.devices@, control.devices@.len(), true)
    }
}

pub open spec fn focus_ids(p: PrimaryDevices, focus: Option<u32>) -> nat {
    match focus {
        Some(c) => devices_of(p.devices@, p.devices@.len(), c),
        None => 0,
    }
}

/// What the client with the keyboard is told of a selection.
pub open spec fn told_focus(p: PrimaryDevices, focus: Option<u32>, sel: Option<SelectionSource>, fresh: Seq<ObjectId>) -> Seq<
    Sent,
> {
    match focus {
        Some(c) => told_devices(p.devices@, p.devices@.len(), c, sel, fresh),
        None => Seq::empty(),
    }
}

pub open spec fn focus_offers(p: PrimaryDevices, focus: Option<u32>, sel: Option<SelectionSource>, fresh: Seq<ObjectId>) -> Seq<
    PrimaryOffer,
> {
    match focus {
        Some(c) => new_offers(p.devices@, p.devices@.len(), c, sel, fresh),
        None => Seq::empty(),
    }
}

impl PrimaryDevices {
    pub fn new() -> (p: PrimaryDevices)
        ensures
            p.devices@.len() == 0,
            p.selection is None,
            p.offers@.len() == 0,
    {
        PrimaryDevices { devices: Vec::new(), selection: None, offers: Vec::new() }
    }

    /// A client is gone. A selection it provides through a source of this kind goes
    /// with it.
    pub fn drop_client(&mut self, sources: &mut Vec<SelectionSource>, client: u32)
        ensures
            final(self).devices@ == old(self).devices@.filter(not_device_of(client)),
            final(self).offers@ == old(self).offers@.filter(not_offer_of(client)),
            final(sources)@ == forgotten(old(sources)@, Provider::Primary, client),
            final(self).selection == (match source_of(old(sources)@, old(self).selection) {
                Some(s) if s.registered && s.provider is Primary && s.client == client => None,
                _ => old(self).selection,
            }),
    {
        retain(
            &mut self.devices,
            |d: &PrimaryDevice| -> (b: bool) ensures b == (d.client != client) { d.client != client },
            Ghost(not_device_of(client)),
        );
        retain(
            &mut self.offers,
            |o: &PrimaryOffer| -> (b: bool) ensures b == (o.client != client) { o.client != client },
            Ghost(not_offer_of(client)),
        );
        let owned: bool = match source_slot(sources, self.selection) {
            Some(k) => sources[k].registered && sources[k].provider == Provider::Primary && sources[k].client
                == client,
            None => false,
        };
        forget_client(sources, Provider::Primary, client);
        if owned {
            self.selection = None;
        }
    }

    pub fn clear(&mut self, sources: &mut Vec<SelectionSource>)
        ensures
            final(self).devices@.len() == 0,
            final(self).selection is None,
            final(self).offers == old(self).offers,
            final(sources)@ == all_forgotten(old(sources)@, Provider::Primary),
    {
        self.devices = Vec::new();
        self.selection = None;
        forget_all(sources, Provider::Primary);
    }

    /// The identity of the provider of the selection.
    pub fn current_source(&self) -> (r: Option<u64>)
        ensures
            r == self.selection,
    {
        self.selection
    }

    /// Tells every device of a client of the selection, each with an offer of its
    /// own. `fresh` are unused server ids; the result is how many were used.
    pub fn offer_to(&mut self, sources: &Vec<SelectionSource>, client: u32, fresh: &Vec<ObjectId>, out: &mut Out) -> (r:
        usize)
        requires
            source_of(sources@, old(self).selection) is Some ==> fresh@.len() >= devices_of(
                old(self).devices@,
                old(self).devices@.len(),
                client,
            ),
        ensures
            ({
                let sel = source_of(sources@, old(self).selection);
                let n = old(self).devices@.len();
                &&& final(self).devices == old(self).devices
                &&& final(self).selection == old(self).selection
                &&& final(self).offers@ == old(self).offers@ + new_offers(old(self).devices@, n, client, sel, fresh@)
                &&& final(out).sent@ == old(out).sent@ + told_devices(old(self).devices@, n, client, sel, fresh@)
                &&& r == (if sel is Some { devices_of(old(self).devices@, n, client) } else { 0 })
            }),
    {
        let ghost sel = source_of(sources@, self.selection);
        let ghost devs = self.devices@;
        let ghost start = out.sent@;
        let ghost had = self.offers@;
        let slot: Option<usize> = source_slot(sources, self.selection);
        let n: usize = self.devices.len();
        let mut used: usize = 0;
        assert(start + Seq::<Sent>::empty() =~= start);
        assert(had + Seq::<PrimaryOffer>::empty() =~= had);
        for i in 0..n
            invariant
                n == devs.len(),
                devs == self.devices@,
                self.devices == old(self).devices,
                self.selection == old(self).selection,
                sel == source_of(sources@, self.selection),
                sel is Some <==> slot is Some,
                slot matches Some(k) ==> k < sources@.len() && sel == Some(sources@[k as int]),
                sel is Some ==> fresh@.len() >= devices_of(devs, n as nat, client),
                used == (if sel is Some { devices_of(devs, i as nat, client) } else { 0 }),
                out.sent@ == start + told_devices(devs, i as nat, client, sel, fresh@),
                self.offers@ == had + new_offers(devs, i as nat, client, sel, fresh@),
        {
            proof {
                devices_of_grows(devs, (i + 1) as nat, n as nat, client);
            }
            let d: PrimaryDevice = self.devices[i];
            if d.client == client {
                match slot {
                    Some(k) => {
                        let id: ObjectId = fresh[used];
                        tell_selection(out, Channel::Primary, client, d.id, id, Some(&sources[k]));
                        self.offers.push(PrimaryOffer { id, client, version: d.version, source: sources[k].uid });
                        used = used + 1;
                    },
                    None => {
                        tell_selection(out, Channel::Primary, client, d.id, ObjectId(0), None);
                    },
                }
            }
            assert(out.sent@ =~= start + told_devices(devs, (i + 1) as nat, client, sel, fresh@));
            assert(self.offers@ =~= had + new_offers(devs, (i + 1) as nat, client, sel, fresh@));
        }
        used
    }

    /// Makes a provider the selection, or none. The old provider is cancelled, the
    /// client with the keyboard learns of it now (everyone else with their next
    /// focus), and so do watchers without a window.
    pub fn set_selection_source(
        &mut self,
        src: Option<u64>,
        sources: &Vec<SelectionSource>,
        focus: Option<u32>,
        control: &mut DataControl,
        fresh: &Vec<ObjectId>,
        out: &mut Out,
    )
        requires
            fresh@.len() >= ids_needed(*old(self), *old(control), source_of(sources@, src), focus),
        ensures
            primary_set(
                *old(self),
                *final(self),
                *old(control),
                *final(control),
                *old(out),
                *final(out),
                src,
                sources@,
                focus,
                fresh@,
            ),
    {
        let was: Option<u64> = self.selection;
        self.selection = src;
        cancel_replaced(out, sources, was, src);
        let ghost mid = out.sent@;
        assert(mid + Seq::<Sent>::empty() =~= mid);
        assert(self.offers@ + Seq::<PrimaryOffer>::empty() =~= self.offers@);
        let used: usize = match focus {
            Some(c) => self.offer_to(sources, c, fresh, out),
            None => 0,
        };
        selection_changed(control, sources, src, true, fresh, used, out);
    }
}

pub struct PrimarySelectionGlobal;

impl PrimarySelectionGlobal {
    pub fn interface(&self) -> (r: Interface)
        ensures
            r is ZwpPrimarySelectionDeviceManagerV1,
    {
        Interface::ZwpPrimarySelectionDeviceManagerV1
    }

    pub fn version(&self) -> (r: u32)
        ensures
            r == 1,
    {
        1
    }

    pub fn bind(&self, client: u32, id: ObjectId, version: u32) -> (r: PrimaryManager)
        ensures
            r == (PrimaryManager { id, client, version }),
    {
        PrimaryManager { id, client, version }
    }
}

#[derive(Clone, Copy, Debug, PartialEq, Eq, Structural)]
pub struct PrimaryManager {
    pub id: ObjectId,
    pub client: u32,
    pub version: u32,
}

impl PrimaryManager {
    /// A source; `uid` is a number never used before.
    pub fn create_source(&self, sources: &mut Vec<SelectionSource>, id: ObjectId, uid: u64) -> (r: PrimarySource)
        ensures
            r == (PrimarySource { id, client: self.client, version: self.version, uid }),
            final(sources)@.len() == old(sources)@.len() + 1,
            final(sources)@.drop_last() == old(sources)@,
            source_starts(final(sources)@.last(), uid, Provider::Primary, self.client, id, self.version),
    {
        add_source(sources, uid, Provider::Primary, self.client, id, self.version);
        PrimarySource { id, client: self.client, version: self.version, uid }
    }

    pub fn get_device(&self, primary: &mut PrimaryDevices, id: ObjectId) -> (r: PrimaryDevice)
        ensures
            r == (PrimaryDevice { id, client: self.client, version: self.version }),
            final(primary).devices@ == old(primary).devices@.push(r),
            *final(primary) == (PrimaryDevices { devices: final(primary).devices, ..*old(primary) }),
    {
        let d = PrimaryDevice { id, client: self.client, version: self.version };
        primary.devices.push(d);
        d
    }
}

/// The object of a source.
#[derive(Clone, Copy, Debug, PartialEq, Eq, Structural)]
pub struct PrimarySource {
    pub id: ObjectId,
    pub client: u32,
    pub version: u32,
    pub uid: u64,
}

/// `b` is `a` where the source that a request names cannot be named any more.
pub open spec fn unregistered(a: Seq<SelectionSource>, b: Seq<SelectionSource>, provider: Provider, client: u32, id: ObjectId) -> bool {
    match first_slot(a, names_source(provider, client, id)) {
        None => b == a,
        Some(k) => b == a.update(k, SelectionSource { registered: false, ..a[k] }),
    }
}

impl PrimarySource {
    pub fn offer(&self, sources: &mut Vec<SelectionSource>, mime: String)
        ensures
            with_mime(old(sources)@, final(sources)@, self.uid, mime),
    {
        add_mime(sources, self.uid, mime);
    }

    /// The source goes; if it is the selection, that is empty now, and the client
    /// with the keyboard learns of it.
    pub fn destroy(
        &self,
        sources: &mut Vec<SelectionSource>,
        primary: &mut PrimaryDevices,
        focus: Option<u32>,
        out: &mut Out,
    )
        ensures
            unregistered(old(sources)@, final(sources)@, Provider::Primary, self.client, self.id),
            ({
                let slot = first_slot(old(sources)@, names_source(Provider::Primary, self.client, self.id));
                let live = slot is Some && old(primary).selection == Some(old(sources)@[slot->0].uid);
                &&& final(primary).devices == old(primary).devices
                &&& final(primary).offers@ == old(primary).offers@
                &&& final(primary).selection == (if live { None } else { old(primary).selection })
                &&& final(out).sent@ == old(out).sent@ + (if live {
                    told_focus(*old(primary), focus, None, Seq::empty())
                } else {
                    Seq::empty()
                })
            }),
    {
        assert(out.sent@ + Seq::<Sent>::empty() =~= out.sent@);
        match named_slot(sources, Provider::Primary, self.client, self.id) {
            None => {},
            Some(k) => {
                let uid: u64 = sources[k].uid;
                sources[k].registered = false;
                assert(sources@ =~= old(sources)@.update(
                    k as int,
                    SelectionSource { registered: false, ..old(sources)@[k as int] },
                ));
                let live: bool = match primary.selection {
                    Some(u) => u == uid,
                    None => false,
                };
                if live {
                    primary.selection = None;
                    match focus {
                        Some(c) => {
                            let none: Vec<ObjectId> = Vec::new();
                            primary.offer_to(sources, c, &none, out);
                            proof {
                                no_selection_no_offers(old(primary).devices@, old(primary).devices@.len(), c, none@);
                            }
                        },
                        None => {},
                    }
                }
            },
        }
    }
}

proof fn no_selection_no_offers(devs: Seq<PrimaryDevice>, n: nat, client: u32, fresh: Seq<ObjectId>)
    ensures
        new_offers(devs, n, client, None, fresh) == Seq::<PrimaryOffer>::empty(),
        told_devices(devs, n, client, None, fresh) == told_devices(devs, n, client, None, Seq::empty()),
    decreases n,
{
    if n > 0 && n <= devs.len() {
        no_selection_no_offers(devs, (n - 1) as nat, client, fresh);
    }
}

/// The provider that a request to set a selection names: none for the null id, and
/// an error where the id names no source.
pub open spec fn wanted(sources: Seq<SelectionSource>, provider: Provider, client: u32, id: ObjectId) -> Option<Option<u64>> {
    if id.0 == 0 {
        Some(None)
    } else {
        match first_slot(sources, names_source(provider, client, id)) {
            Some(k) => Some(Some(sources[k].uid)),
            None => None,
        }
    }
}

/// Looks up the provider that a request names.
pub(crate) fn resolve_source(sources: &Vec<SelectionSource>, provider: Provider, client: u32, id: ObjectId) -> (r: Option<
    Option<u64>,
>)
    ensures
        r == wanted(sources@, provider, client, id),
{
    if id.0 == 0 {
        return Some(None);
    }
    match named_slot(sources, provider, client, id) {
        Some(k) => Some(Some(sources[k].uid)),
        None => None,
    }
}

/// What setting the selection to a provider, or to none, comes to: the old provider is
/// cancelled if it is another one, the client with the keyboard is told, then the
/// watchers.
pub open spec fn primary_set(
    a: PrimaryDevices,
    b: PrimaryDevices,
    ca: DataControl,
    cb: DataControl,
    before: Out,
    after: Out,
    src: Option<u64>,
    sources: Seq<SelectionSource>,
    focus: Option<u32>,
    fresh: Seq<ObjectId>,
) -> bool {
    let sel = source_of(sources, src);
    let used = if sel is Some { focus_ids(a, focus) } else { 0 };
    &&& b.selection == src
    &&& b.devices == a.devices
    &&& b.offers@ == a.offers@ + focus_offers(a, focus, sel, fresh)
    &&& cb.devices == ca.devices
    &&& cb.offers@ == ca.offers@ + watcher_offers(
        ca.devices@,
        ca.devices@.len(),
        sel,
        true,
        fresh,
        used,
    )
    &&& after.sent@ == before.sent@ + replaced_events(sources, a.selection, src) + told_focus(a, focus, sel, fresh)
        + watcher_events(ca.devices@, ca.devices@.len(), sel, true, fresh, used)
}

impl PrimaryDevice {
    /// Sets the selection to a source of the client. `true` when it was set: then the
    /// x11 bridge follows.
    pub fn set_selection(
        &self,
        out: &mut Out,
        source: ObjectId,
        sources: &Vec<SelectionSource>,
        primary: &mut PrimaryDevices,
        focus: Option<u32>,
        control: &mut DataControl,
        fresh: &Vec<ObjectId>,
    ) -> (r: bool)
        requires
            wanted(sources@, Provider::Primary, self.client, source) matches Some(src) ==> fresh@.len() >= ids_needed(
                *old(primary),
                *old(control),
                source_of(sources@, src),
                focus,
            ),
        ensures
            match wanted(sources@, Provider::Primary, self.client, source) {
                None => !r && *final(primary) == *old(primary) && *final(control) == *old(control) && told_invalid(
                    *old(out),
                    *final(out),
                    self.client,
                    source,
                ),
                Some(src) => r && primary_set(
                    *old(primary),
                    *final(primary),
                    *old(control),
                    *final(control),
                    *old(out),
                    *final(out),
                    src,
                    sources@,
                    focus,
                    fresh@,
                ),
            },
    {
        match resolve_source(sources, Provider::Primary, self.client, source) {
            None => {
                out.invalid_object(self.client, source);
                false
            },
            Some(src) => {
                primary.set_selection_source(src, sources, focus, control, fresh, out);
                true
            },
        }
    }

    pub fn destroy(&self, primary: &mut PrimaryDevices)
        ensures
            final(primary).devices@ == old(primary).devices@.filter(not_device(self.client, self.id)),
            *final(primary) == (PrimaryDevices { devices: final(primary).devices, ..*old(primary) }),
    {
        let (client, id): (u32, ObjectId) = (self.client, self.id);
        retain(
            &mut primary.devices,
            |d: &PrimaryDevice| -> (b: bool) ensures b == !(d.client == client && d.id == id) { !(d.client == client && d.id.0 == id.0) },
            Ghost(not_device(client, id)),
        );
    }
}

} // verus!
