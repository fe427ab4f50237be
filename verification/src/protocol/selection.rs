//! What the clipboards share: who provides a selection, and how devices are told of
//! one.
use crate::list::find;
use crate::output::first_slot;
use crate::protocol::events::{sent, Event, Out, Sent};
use crate::protocol::ObjectId;
use vstd::prelude::*;

verus! {

/// Who provides a selection.
#[derive(Clone, Copy, Debug, PartialEq, Eq, Structural)]
pub enum Provider {
    /// a data source of a client
    Data,
    /// a primary selection source of a client
    Primary,
    /// a control source of a client
    Control,
    /// something outside the protocol, such as the x11 bridge; the events of a data
    /// source, to a number that is no client's, stand for calls on it
    Foreign,
}

/// A provider of data, by a list of mime types.
pub struct SelectionSource {
    /// identity, never reused
    pub uid: u64,
    pub provider: Provider,
    pub client: u32,
    pub id: ObjectId,
    pub version: u32,
    pub mimes: Vec<String>,
    pub dnd_actions: u32,
    /// requests can still name it
    pub registered: bool,
}

pub open spec fn is_source(uid: u64) -> spec_fn(SelectionSource) -> bool {
    |s: SelectionSource| s.uid == uid
}

pub open spec fn names_source(provider: Provider, client: u32, id: ObjectId) -> spec_fn(SelectionSource) -> bool {
    |s: SelectionSource| s.registered && s.provider == provider && s.client == client && s.id == id
}

/// The source of an identity.
pub open spec fn source_of(sources: Seq<SelectionSource>, uid: Option<u64>) -> Option<SelectionSource> {
    match uid {
        None => None,
        Some(u) => match first_slot(sources, is_source(u)) {
            Some(k) => Some(sources[k]),
            None => None,
        },
    }
}

pub open spec fn cancellation(s: SelectionSource) -> Sent {
    sent(
        s.client,
        s.id,
        match s.provider {
            Provider::Primary => Event::PrimaryCancelled,
            Provider::Control => Event::ControlCancelled,
            _ => Event::SourceCancelled,
        },
    )
}

pub open spec fn delivery(s: SelectionSource, mime: String, fd: u32) -> Sent {
    sent(
        s.client,
        s.id,
        match s.provider {
            Provider::Primary => Event::PrimarySend { mime, fd },
            Provider::Control => Event::ControlSend { mime, fd },
            _ => Event::SourceSend { mime, fd },
        },
    )
}

impl SelectionSource {
    /// Asks the provider to write data of a type.
    pub fn send(&self, out: &mut Out, mime: String, fd: u32)
        ensures
            final(out).sent@ == old(out).sent@.push(delivery(*self, mime, fd)),
    {
        let event: Event = match self.provider {
            Provider::Primary => Event::PrimarySend { mime, fd },
            Provider::Control => Event::ControlSend { mime, fd },
            Provider::Data => Event::SourceSend { mime, fd },
            Provider::Foreign => Event::SourceSend { mime, fd },
        };
        out.event(self.client, self.id, event);
    }

    /// Tells the provider that it is not needed any more.
    pub fn cancelled(&self, out: &mut Out)
        ensures
            final(out).sent@ == old(out).sent@.push(cancellation(*self)),
    {
        let event: Event = match self.provider {
            Provider::Primary => Event::PrimaryCancelled,
            Provider::Control => Event::ControlCancelled,
            Provider::Data => Event::SourceCancelled,
            Provider::Foreign => Event::SourceCancelled,
        };
        out.event(self.client, self.id, event);
    }

    /// Whether it dies with the server on its other side.
    pub fn is_x11(&self) -> (r: bool)
        ensures
            r == (self.provider is Foreign),
    {
        self.provider == Provider::Foreign
    }
}

/// The slot of the source of an identity.
pub(crate) fn source_slot(sources: &Vec<SelectionSource>, uid: Option<u64>) -> (r: Option<usize>)
    ensures
        match r {
            Some(k) => k < sources@.len() && source_of(sources@, uid) == Some(sources@[k as int]) && uid is Some
                && first_slot(sources@, is_source(uid->0)) == Some(k as int) && sources@[k as int].uid == uid->0,
            None => source_of(sources@, uid) is None,
        },
{
    match uid {
        None => None,
        Some(u) => find(
            sources,
            |s: &SelectionSource| -> (b: bool) ensures b == (s.uid == u) { s.uid == u },
            Ghost(is_source(u)),
        ),
    }
}

/// The slot of the source that a request names.
pub(crate) fn named_slot(sources: &Vec<SelectionSource>, provider: Provider, client: u32, id: ObjectId) -> (r: Option<
    usize,
>)
    ensures
        match r {
            Some(k) => k < sources@.len() && first_slot(sources@, names_source(provider, client, id)) == Some(k as int)
                && names_source(provider, client, id)(sources@[k as int]),
            None => first_slot(sources@, names_source(provider, client, id)) is None,
        },
{
    find(
        sources,
        |s: &SelectionSource| -> (b: bool) ensures b == names_source(provider, client, id)(*s) { s.registered && s.provider == provider && s.client == client && s.id.0 == id.0 },
        Ghost(names_source(provider, client, id)),
    )
}

/// The kinds of devices, and the selection they speak of.
#[derive(Clone, Copy, Debug, PartialEq, Eq, Structural)]
pub enum Channel {
    Data,
    Primary,
    Control,
    ControlPrimary,
}

pub open spec fn offer_event(ch: Channel, id: ObjectId) -> Event {
    match ch {
        Channel::Data => Event::DataOffer { id },
        Channel::Primary => Event::PrimaryDataOffer { id },
        _ => Event::ControlDataOffer { id },
    }
}

pub open spec fn mime_event(ch: Channel, mime: String) -> Event {
    match ch {
        Channel::Data => Event::OfferMime { mime },
        Channel::Primary => Event::PrimaryMime { mime },
        _ => Event::ControlMime { mime },
    }
}

pub open spec fn selection_event(ch: Channel, id: ObjectId) -> Event {
    match ch {
        Channel::Data => Event::Selection { id },
        Channel::Primary => Event::PrimarySelection { id },
        Channel::Control => Event::ControlSelection { id },
        Channel::ControlPrimary => Event::ControlPrimarySelection { id },
    }
}

/// The types of an offer, one event each.
pub open spec fn mime_events(ch: Channel, client: u32, id: ObjectId, mimes: Seq<String>) -> Seq<Sent> {
    Seq::new(mimes.len(), |i: int| sent(client, id, mime_event(ch, mimes[i])))
}

/// What introduces an offer to a device.
pub open spec fn offer_events(ch: Channel, client: u32, device: ObjectId, id: ObjectId, s: SelectionSource) -> Seq<Sent> {
    seq![sent(client, device, offer_event(ch, id))] + mime_events(ch, client, id, s.mimes@)
}

/// What tells a device of a selection: a fresh offer and the selection of it, or an
/// empty selection.
pub open spec fn told_selection(
    ch: Channel,
    client: u32,
    device: ObjectId,
    id: ObjectId,
    s: Option<SelectionSource>,
) -> Seq<Sent> {
    match s {
        Some(s) => offer_events(ch, client, device, id, s).push(sent(client, device, selection_event(ch, id))),
        None => seq![sent(client, device, selection_event(ch, ObjectId(0)))],
    }
}

fn send_mimes(out: &mut Out, ch: Channel, client: u32, id: ObjectId, mimes: &Vec<String>)
    ensures
        final(out).sent@ == old(out).sent@ + mime_events(ch, client, id, mimes@),
{
    let ghost start = out.sent@;
    assert(start + mime_events(ch, client, id, mimes@.take(0)) =~= start);
    for i in 0..mimes.len()
        invariant
            start == old(out).sent@,
            out.sent@ == start + mime_events(ch, client, id, mimes@.take(i as int)),
    {
        let mime: String = mimes[i].clone();
        let event: Event = match ch {
            Channel::Data => Event::OfferMime { mime },
            Channel::Primary => Event::PrimaryMime { mime },
            Channel::Control => Event::ControlMime { mime },
            Channel::ControlPrimary => Event::ControlMime { mime },
        };
        out.event(client, id, event);
        assert(out.sent@ =~= start + mime_events(ch, client, id, mimes@.take(i + 1)));
    }
    assert(mimes@.take(mimes@.len() as int) =~= mimes@);
}

/// Introduces an offer to a device.
pub(crate) fn send_offer(out: &mut Out, ch: Channel, client: u32, device: ObjectId, id: ObjectId, s: &SelectionSource)
    ensures
        final(out).sent@ == old(out).sent@ + offer_events(ch, client, device, id, *s),
{
    let event: Event = match ch {
        Channel::Data => Event::DataOffer { id },
        Channel::Primary => Event::PrimaryDataOffer { id },
        Channel::Control => Event::ControlDataOffer { id },
        Channel::ControlPrimary => Event::ControlDataOffer { id },
    };
    out.event(client, device, event);
    send_mimes(out, ch, client, id, &s.mimes);
    assert(out.sent@ =~= old(out).sent@ + offer_events(ch, client, device, id, *s));
}

/// Tells a device of a selection; `id` is for the offer, where there is one.
pub(crate) fn tell_selection(
    out: &mut Out,
    ch: Channel,
    client: u32,
    device: ObjectId,
    id: ObjectId,
    s: Option<&SelectionSource>,
)
    ensures
        final(out).sent@ == old(out).sent@ + told_selection(
            ch,
            client,
            device,
            id,
            match s {
                Some(s) => Some(*s),
                None => None,
            },
        ),
{
    let mut named: ObjectId = ObjectId(0);
    match s {
        Some(s) => {
            send_offer(out, ch, client, device, id, s);
            named = id;
        },
        None => {},
    }
    let event: Event = match ch {
        Channel::Data => Event::Selection { id: named },
        Channel::Primary => Event::PrimarySelection { id: named },
        Channel::Control => Event::ControlSelection { id: named },
        Channel::ControlPrimary => Event::ControlPrimarySelection { id: named },
    };
    out.event(client, device, event);
    assert(out.sent@ =~= old(out).sent@ + told_selection(
        ch,
        client,
        device,
        id,
        match s {
            Some(s) => Some(*s),
            None => None,
        },
    ));
}

/// The sources of a kind that a client registered cannot be named any more.
pub open spec fn forgotten(sources: Seq<SelectionSource>, provider: Provider, client: u32) -> Seq<SelectionSource> {
    Seq::new(
        sources.len(),
        |i: int|
            if sources[i].provider == provider && sources[i].client == client {
                SelectionSource { registered: false, ..sources[i] }
            } else {
                sources[i]
            },
    )
}

pub(crate) fn forget_client(sources: &mut Vec<SelectionSource>, provider: Provider, client: u32)
    ensures
        final(sources)@ == forgotten(old(sources)@, provider, client),
{
    let ghost all = sources@;
    let n: usize = sources.len();
    for i in 0..n
        invariant
            all == old(sources)@,
            n == all.len(),
            sources@.len() == n,
            forall|j: int| i <= j < n ==> sources@[j] == all[j],
            forall|j: int| 0 <= j < i ==> #[trigger] sources@[j] == forgotten(all, provider, client)[j],
    {
        if sources[i].provider == provider && sources[i].client == client {
            sources[i].registered = false;
        }
    }
    assert(sources@ =~= forgotten(all, provider, client));
}

/// All sources of a kind cannot be named any more.
pub open spec fn all_forgotten(sources: Seq<SelectionSource>, provider: Provider) -> Seq<SelectionSource> {
    Seq::new(
        sources.len(),
        |i: int|
            if sources[i].provider == provider {
                SelectionSource { registered: false, ..sources[i] }
            } else {
                sources[i]
            },
    )
}

pub(crate) fn forget_all(sources: &mut Vec<SelectionSource>, provider: Provider)
    ensures
        final(sources)@ == all_forgotten(old(sources)@, provider),
{
    let ghost all = sources@;
    let n: usize = sources.len();
    for i in 0..n
        invariant
            all == old(sources)@,
            n == all.len(),
            sources@.len() == n,
            forall|j: int| i <= j < n ==> sources@[j] == all[j],
            forall|j: int| 0 <= j < i ==> #[trigger] sources@[j] == all_forgotten(all, provider)[j],
    {
        if sources[i].provider == provider {
            sources[i].registered = false;
        }
    }
    assert(sources@ =~= all_forgotten(all, provider));
}

/// A source as it starts out.
pub open spec fn source_starts(s: SelectionSource, uid: u64, provider: Provider, client: u32, id: ObjectId, version: u32) -> bool {
    &&& s.uid == uid
    &&& s.provider == provider
    &&& s.client == client
    &&& s.id == id
    &&& s.version == version
    &&& s.mimes@.len() == 0
    &&& s.dnd_actions == 0
    &&& s.registered
}

pub(crate) fn add_source(
    sources: &mut Vec<SelectionSource>,
    uid: u64,
    provider: Provider,
    client: u32,
    id: ObjectId,
    version: u32,
)
    ensures
        final(sources)@.len() == old(sources)@.len() + 1,
        final(sources)@.drop_last() == old(sources)@,
        source_starts(final(sources)@.last(), uid, provider, client, id, version),
{
    sources.push(
        SelectionSource { uid, provider, client, id, version, mimes: Vec::new(), dnd_actions: 0, registered: true },
    );
    assert(sources@.drop_last() =~= old(sources)@);
}

/// `b` is `a` where the source of that identity has one type more.
pub open spec fn with_mime(a: Seq<SelectionSource>, b: Seq<SelectionSource>, uid: u64, mime: String) -> bool {
    match first_slot(a, is_source(uid)) {
        None => b == a,
        Some(k) => {
            &&& b.len() == a.len()
            &&& forall|i: int| 0 <= i < a.len() && i != k ==> #[trigger] b[i] == a[i]
            &&& b[k].mimes@ == a[k].mimes@.push(mime)
            &&& b[k] == (SelectionSource { mimes: b[k].mimes, ..a[k] })
        },
    }
}

pub(crate) fn add_mime(sources: &mut Vec<SelectionSource>, uid: u64, mime: String)
    ensures
        with_mime(old(sources)@, final(sources)@, uid, mime),
{
    match source_slot(sources, Some(uid)) {
        None => {},
        Some(k) => {
            sources[k].mimes.push(mime);
        },
    }
}

/// A selection was replaced by another provider: the old one hears of it.
pub open spec fn replaced_events(sources: Seq<SelectionSource>, was: Option<u64>, now: Option<u64>) -> Seq<Sent> {
    match source_of(sources, was) {
        Some(s) if was != now => seq![cancellation(s)],
        _ => Seq::empty(),
    }
}

pub(crate) fn cancel_replaced(out: &mut Out, sources: &Vec<SelectionSource>, was: Option<u64>, now: Option<u64>)
    ensures
        final(out).sent@ == old(out).sent@ + replaced_events(sources@, was, now),
{
    let same: bool = match (was, now) {
        (Some(a), Some(b)) => a == b,
        (None, None) => true,
        _ => false,
    };
    assert(out.sent@ + Seq::<Sent>::empty() =~= out.sent@);
    if same {
        return;
    }
    match source_slot(sources, was) {
        Some(k) => {
            sources[k].cancelled(out);
            assert(out.sent@ =~= old(out).sent@ + replaced_events(sources@, was, now));
        },
        None => {},
    }
}

} // verus!
