//! Events to clients: what each one carries, and how it goes out on the wire.
use crate::bytes::{le32_spec, put_le32};
use crate::protocol::interfaces::{events_spec, Interface};
use crate::protocol::wire::{encode_all, fds_of, letters, message_bytes, short, views, Arg, ArgV, EventOut};
use crate::protocol::{Fixed, ObjectId};
use crate::text::{decimal_text, digits};
use vstd::prelude::*;

verus! {

/// An event of some object.
#[allow(inconsistent_fields)]
pub enum Event {
    /// The client broke the protocol; it is disconnected.
    Error { object: ObjectId, code: u32, message: String },
    DeleteId { id: u32 },
    Global { name: u32, interface: String, version: u32 },
    GlobalRemove { name: u32 },
    CallbackDone { data: u32 },
    SurfaceEnter { output: ObjectId },
    SurfaceLeave { output: ObjectId },
    ShmFormat { format: u32 },
    BufferRelease,
    PopupDone,
    SourceTarget { mime: Option<String> },
    SourceSend { mime: String, fd: u32 },
    SourceCancelled,
    DropPerformed,
    DndFinished,
    SourceAction { action: u32 },
    DataOffer { id: ObjectId },
    DndEnter { serial: u32, surface: ObjectId, x: Fixed, y: Fixed, id: ObjectId },
    DndLeave,
    DndMotion { time: u32, x: Fixed, y: Fixed },
    DndDrop,
    Selection { id: ObjectId },
    OfferMime { mime: String },
    OfferSourceActions { actions: u32 },
    OfferAction { action: u32 },
    Idled,
    Resumed,
    FtlToplevel { id: ObjectId },
    FtlFinished,
    FtlTitle { title: String },
    FtlAppId { app_id: String },
    FtlOutputEnter { output: ObjectId },
    FtlOutputLeave { output: ObjectId },
    /// The states that hold, as words.
    FtlState { activated: bool, fullscreen: bool },
    FtlDone,
    FtlClosed,
    ControlDataOffer { id: ObjectId },
    ControlSelection { id: ObjectId },
    ControlPrimarySelection { id: ObjectId },
    ControlSend { mime: String, fd: u32 },
    ControlCancelled,
    ControlMime { mime: String },
    CopyBuffer { format: u32, width: u32, height: u32, stride: u32 },
    CopyFlags { flags: u32 },
    CopyReady { sec_hi: u32, sec_lo: u32, nsec: u32 },
    CopyFailed,
    CopyDamage { x: u32, y: u32, width: u32, height: u32 },
    CopyBufferDone,
    SessionBufferSize { width: u32, height: u32 },
    SessionShmFormat { format: u32 },
    SessionDone,
    SessionStopped,
    FrameTransform { transform: u32 },
    FrameDamage { x: i32, y: i32, width: i32, height: i32 },
    FramePresented { sec_hi: u32, sec_lo: u32, nsec: u32 },
    FrameReady,
    FrameFailed { reason: u32 },
    PointerLocked,
    PointerUnlocked,
    PointerConfined,
    PointerUnconfined,
    PrimarySend { mime: String, fd: u32 },
    PrimaryCancelled,
    PrimaryDataOffer { id: ObjectId },
    PrimarySelection { id: ObjectId },
    PrimaryMime { mime: String },
    LayerConfigure { serial: u32, width: u32, height: u32 },
    LayerClosed,
    LockLocked,
    LockFinished,
    LockConfigure { serial: u32, width: u32, height: u32 },
    TokenDone { token: String },
}

/// The words of the states that hold: activated, then fullscreen.
pub open spec fn state_words(activated: bool, fullscreen: bool) -> Seq<u8> {
    (if activated { le32_spec(2) } else { Seq::empty() }) + (if fullscreen { le32_spec(3) } else { Seq::empty() })
}

fn put_states(activated: bool, fullscreen: bool) -> (r: Vec<u8>)
    ensures
        r@ == state_words(activated, fullscreen),
{
    let mut v: Vec<u8> = Vec::new();
    if activated {
        put_le32(&mut v, 2);
    }
    if fullscreen {
        put_le32(&mut v, 3);
    }
    assert(v@ =~= state_words(activated, fullscreen));
    v
}

impl Event {
    /// The interface whose event it is.
    pub open spec fn interface_spec(self) -> Interface {
        match self {
            Event::Error { .. } | Event::DeleteId { .. } => Interface::WlDisplay,
            Event::Global { .. } | Event::GlobalRemove { .. } => Interface::WlRegistry,
            Event::CallbackDone { .. } => Interface::WlCallback,
            Event::SurfaceEnter { .. } | Event::SurfaceLeave { .. } => Interface::WlSurface,
            Event::ShmFormat { .. } => Interface::WlShm,
            Event::BufferRelease => Interface::WlBuffer,
            Event::PopupDone => Interface::XdgPopup,
            Event::SourceTarget { .. } | Event::SourceSend { .. } | Event::SourceCancelled | Event::DropPerformed | Event::DndFinished | Event::SourceAction { .. } => Interface::WlDataSource,
            Event::DataOffer { .. } | Event::DndEnter { .. } | Event::DndLeave | Event::DndMotion { .. } | Event::DndDrop | Event::Selection { .. } => Interface::WlDataDevice,
            Event::OfferMime { .. } | Event::OfferSourceActions { .. } | Event::OfferAction { .. } => Interface::WlDataOffer,
            Event::Idled | Event::Resumed => Interface::ExtIdleNotificationV1,
            Event::FtlToplevel { .. } | Event::FtlFinished => Interface::ZwlrForeignToplevelManagerV1,
            Event::FtlTitle { .. } | Event::FtlAppId { .. } | Event::FtlOutputEnter { .. } | Event::FtlOutputLeave { .. } | Event::FtlState { .. } | Event::FtlDone | Event::FtlClosed => Interface::ZwlrForeignToplevelHandleV1,
            Event::ControlDataOffer { .. } | Event::ControlSelection { .. } | Event::ControlPrimarySelection { .. } => Interface::ZwlrDataControlDeviceV1,
            Event::ControlSend { .. } | Event::ControlCancelled => Interface::ZwlrDataControlSourceV1,
            Event::ControlMime { .. } => Interface::ZwlrDataControlOfferV1,
            Event::CopyBuffer { .. } | Event::CopyFlags { .. } | Event::CopyReady { .. } | Event::CopyFailed | Event::CopyDamage { .. } | Event::CopyBufferDone => Interface::ZwlrScreencopyFrameV1,
            Event::SessionBufferSize { .. } | Event::SessionShmFormat { .. } | Event::SessionDone | Event::SessionStopped => Interface::ExtImageCopyCaptureSessionV1,
            Event::FrameTransform { .. } | Event::FrameDamage { .. } | Event::FramePresented { .. } | Event::FrameReady | Event::FrameFailed { .. } => Interface::ExtImageCopyCaptureFrameV1,
            Event::PointerLocked | Event::PointerUnlocked => Interface::ZwpLockedPointerV1,
            Event::PointerConfined | Event::PointerUnconfined => Interface::ZwpConfinedPointerV1,
            Event::PrimarySend { .. } | Event::PrimaryCancelled => Interface::ZwpPrimarySelectionSourceV1,
            Event::PrimaryDataOffer { .. } | Event::PrimarySelection { .. } => Interface::ZwpPrimarySelectionDeviceV1,
            Event::PrimaryMime { .. } => Interface::ZwpPrimarySelectionOfferV1,
            Event::LayerConfigure { .. } | Event::LayerClosed => Interface::ZwlrLayerSurfaceV1,
            Event::LockLocked | Event::LockFinished => Interface::ExtSessionLockV1,
            Event::LockConfigure { .. } => Interface::ExtSessionLockSurfaceV1,
            Event::TokenDone { .. } => Interface::XdgActivationTokenV1,
        }
    }

    /// Its number among the events of its interface.
    pub open spec fn opcode_spec(self) -> u32 {
        match self {
            Event::Error { .. } | Event::Global { .. } | Event::CallbackDone { .. } | Event::SurfaceEnter { .. } | Event::ShmFormat { .. } | Event::BufferRelease | Event::SourceTarget { .. } | Event::DataOffer { .. } | Event::OfferMime { .. } | Event::Idled | Event::FtlToplevel { .. } | Event::FtlTitle { .. } | Event::ControlDataOffer { .. } | Event::ControlSend { .. } | Event::ControlMime { .. } | Event::CopyBuffer { .. } | Event::SessionBufferSize { .. } | Event::FrameTransform { .. } | Event::PointerLocked | Event::PointerConfined | Event::PrimarySend { .. } | Event::PrimaryDataOffer { .. } | Event::PrimaryMime { .. } | Event::LayerConfigure { .. } | Event::LockLocked | Event::LockConfigure { .. } | Event::TokenDone { .. } => 0,
            Event::DeleteId { .. } | Event::GlobalRemove { .. } | Event::SurfaceLeave { .. } | Event::PopupDone | Event::SourceSend { .. } | Event::DndEnter { .. } | Event::OfferSourceActions { .. } | Event::Resumed | Event::FtlFinished | Event::FtlAppId { .. } | Event::ControlSelection { .. } | Event::ControlCancelled | Event::CopyFlags { .. } | Event::SessionShmFormat { .. } | Event::FrameDamage { .. } | Event::PointerUnlocked | Event::PointerUnconfined | Event::PrimaryCancelled | Event::PrimarySelection { .. } | Event::LayerClosed | Event::LockFinished => 1,
            Event::SourceCancelled | Event::DndLeave | Event::OfferAction { .. } | Event::FtlOutputEnter { .. } | Event::CopyReady { .. } | Event::FramePresented { .. } => 2,
            Event::DropPerformed | Event::DndMotion { .. } | Event::FtlOutputLeave { .. } | Event::ControlPrimarySelection { .. } | Event::CopyFailed | Event::FrameReady => 3,
            Event::DndFinished | Event::DndDrop | Event::FtlState { .. } | Event::CopyDamage { .. } | Event::SessionDone | Event::FrameFailed { .. } => 4,
            Event::SourceAction { .. } | Event::Selection { .. } | Event::FtlDone | Event::SessionStopped => 5,
            Event::FtlClosed | Event::CopyBufferDone => 6,
        }
    }

    pub fn opcode(&self) -> (r: u32)
        ensures
            r == self.opcode_spec(),
    {
        match self {
            Event::Error { .. } | Event::Global { .. } | Event::CallbackDone { .. } | Event::SurfaceEnter { .. } | Event::ShmFormat { .. } | Event::BufferRelease | Event::SourceTarget { .. } | Event::DataOffer { .. } | Event::OfferMime { .. } | Event::Idled | Event::FtlToplevel { .. } | Event::FtlTitle { .. } | Event::ControlDataOffer { .. } | Event::ControlSend { .. } | Event::ControlMime { .. } | Event::CopyBuffer { .. } | Event::SessionBufferSize { .. } | Event::FrameTransform { .. } | Event::PointerLocked | Event::PointerConfined | Event::PrimarySend { .. } | Event::PrimaryDataOffer { .. } | Event::PrimaryMime { .. } | Event::LayerConfigure { .. } | Event::LockLocked | Event::LockConfigure { .. } | Event::TokenDone { .. } => 0,
            Event::DeleteId { .. } | Event::GlobalRemove { .. } | Event::SurfaceLeave { .. } | Event::PopupDone | Event::SourceSend { .. } | Event::DndEnter { .. } | Event::OfferSourceActions { .. } | Event::Resumed | Event::FtlFinished | Event::FtlAppId { .. } | Event::ControlSelection { .. } | Event::ControlCancelled | Event::CopyFlags { .. } | Event::SessionShmFormat { .. } | Event::FrameDamage { .. } | Event::PointerUnlocked | Event::PointerUnconfined | Event::PrimaryCancelled | Event::PrimarySelection { .. } | Event::LayerClosed | Event::LockFinished => 1,
            Event::SourceCancelled | Event::DndLeave | Event::OfferAction { .. } | Event::FtlOutputEnter { .. } | Event::CopyReady { .. } | Event::FramePresented { .. } => 2,
            Event::DropPerformed | Event::DndMotion { .. } | Event::FtlOutputLeave { .. } | Event::ControlPrimarySelection { .. } | Event::CopyFailed | Event::FrameReady => 3,
            Event::DndFinished | Event::DndDrop | Event::FtlState { .. } | Event::CopyDamage { .. } | Event::SessionDone | Event::FrameFailed { .. } => 4,
            Event::SourceAction { .. } | Event::Selection { .. } | Event::FtlDone | Event::SessionStopped => 5,
            Event::FtlClosed | Event::CopyBufferDone => 6,
        }
    }

    pub open spec fn args_spec(self) -> Seq<ArgV> {
        match self {
            Event::Error { object, code, message } => seq![ArgV::Object(object), ArgV::Uint(code), ArgV::Text(message@)],
            Event::DeleteId { id } => seq![ArgV::Uint(id)],
            Event::Global { name, interface, version } => seq![ArgV::Uint(name), ArgV::Text(interface@), ArgV::Uint(version)],
            Event::GlobalRemove { name } => seq![ArgV::Uint(name)],
            Event::CallbackDone { data } => seq![ArgV::Uint(data)],
            Event::SurfaceEnter { output } => seq![ArgV::Object(output)],
            Event::SurfaceLeave { output } => seq![ArgV::Object(output)],
            Event::ShmFormat { format } => seq![ArgV::Uint(format)],
            Event::BufferRelease => Seq::empty(),
            Event::PopupDone => Seq::empty(),
            Event::SourceTarget { mime } => seq![ArgV::OptText(match mime { Some(s) => Some(s@), None => None })],
            Event::SourceSend { mime, fd } => seq![ArgV::Text(mime@), ArgV::Fd(fd)],
            Event::SourceCancelled => Seq::empty(),
            Event::DropPerformed => Seq::empty(),
            Event::DndFinished => Seq::empty(),
            Event::SourceAction { action } => seq![ArgV::Uint(action)],
            Event::DataOffer { id } => seq![ArgV::Object(id)],
            Event::DndEnter { serial, surface, x, y, id } => seq![ArgV::Uint(serial), ArgV::Object(surface), ArgV::Fixed(x), ArgV::Fixed(y), ArgV::Object(id)],
            Event::DndLeave => Seq::empty(),
            Event::DndMotion { time, x, y } => seq![ArgV::Uint(time), ArgV::Fixed(x), ArgV::Fixed(y)],
            Event::DndDrop => Seq::empty(),
            Event::Selection { id } => seq![ArgV::Object(id)],
            Event::OfferMime { mime } => seq![ArgV::Text(mime@)],
            Event::OfferSourceActions { actions } => seq![ArgV::Uint(actions)],
            Event::OfferAction { action } => seq![ArgV::Uint(action)],
            Event::Idled => Seq::empty(),
            Event::Resumed => Seq::empty(),
            Event::FtlToplevel { id } => seq![ArgV::NewId(id)],
            Event::FtlFinished => Seq::empty(),
            Event::FtlTitle { title } => seq![ArgV::Text(title@)],
            Event::FtlAppId { app_id } => seq![ArgV::Text(app_id@)],
            Event::FtlOutputEnter { output } => seq![ArgV::Object(output)],
            Event::FtlOutputLeave { output } => seq![ArgV::Object(output)],
            Event::FtlState { activated, fullscreen } => seq![ArgV::Array(state_words(activated, fullscreen))],
            Event::FtlDone => Seq::empty(),
            Event::FtlClosed => Seq::empty(),
            Event::ControlDataOffer { id } => seq![ArgV::NewId(id)],
            Event::ControlSelection { id } => seq![ArgV::Object(id)],
            Event::ControlPrimarySelection { id } => seq![ArgV::Object(id)],
            Event::ControlSend { mime, fd } => seq![ArgV::Text(mime@), ArgV::Fd(fd)],
            Event::ControlCancelled => Seq::empty(),
            Event::ControlMime { mime } => seq![ArgV::Text(mime@)],
            Event::CopyBuffer { format, width, height, stride } => seq![ArgV::Uint(format), ArgV::Uint(width), ArgV::Uint(height), ArgV::Uint(stride)],
            Event::CopyFlags { flags } => seq![ArgV::Uint(flags)],
            Event::CopyReady { sec_hi, sec_lo, nsec } => seq![ArgV::Uint(sec_hi), ArgV::Uint(sec_lo), ArgV::Uint(nsec)],
            Event::CopyFailed => Seq::empty(),
            Event::CopyDamage { x, y, width, height } => seq![ArgV::Uint(x), ArgV::Uint(y), ArgV::Uint(width), ArgV::Uint(height)],
            Event::CopyBufferDone => Seq::empty(),
            Event::SessionBufferSize { width, height } => seq![ArgV::Uint(width), ArgV::Uint(height)],
            Event::SessionShmFormat { format } => seq![ArgV::Uint(format)],
            Event::SessionDone => Seq::empty(),
            Event::SessionStopped => Seq::empty(),
            Event::FrameTransform { transform } => seq![ArgV::Uint(transform)],
            Event::FrameDamage { x, y, width, height } => seq![ArgV::Int(x), ArgV::Int(y), ArgV::Int(width), ArgV::Int(height)],
            Event::FramePresented { sec_hi, sec_lo, nsec } => seq![ArgV::Uint(sec_hi), ArgV::Uint(sec_lo), ArgV::Uint(nsec)],
            Event::FrameReady => Seq::empty(),
            Event::FrameFailed { reason } => seq![ArgV::Uint(reason)],
            Event::PointerLocked => Seq::empty(),
            Event::PointerUnlocked => Seq::empty(),
            Event::PointerConfined => Seq::empty(),
            Event::PointerUnconfined => Seq::empty(),
            Event::PrimarySend { mime, fd } => seq![ArgV::Text(mime@), ArgV::Fd(fd)],
            Event::PrimaryCancelled => Seq::empty(),
            Event::PrimaryDataOffer { id } => seq![ArgV::Object(id)],
            Event::PrimarySelection { id } => seq![ArgV::Object(id)],
            Event::PrimaryMime { mime } => seq![ArgV::Text(mime@)],
            Event::LayerConfigure { serial, width, height } => seq![ArgV::Uint(serial), ArgV::Uint(width), ArgV::Uint(height)],
            Event::LayerClosed => Seq::empty(),
            Event::LockLocked => Seq::empty(),
            Event::LockFinished => Seq::empty(),
            Event::LockConfigure { serial, width, height } => seq![ArgV::Uint(serial), ArgV::Uint(width), ArgV::Uint(height)],
            Event::TokenDone { token } => seq![ArgV::Text(token@)],
        }
    }

    /// Its arguments, in wire order.
    pub fn args(&self) -> (r: Vec<Arg>)
        ensures
            views(r@) == self.args_spec(),
    {
        let mut v: Vec<Arg> = Vec::new();
        match self {
            Event::Error { object, code, message } => {
                v.push(Arg::Object(*object));
                v.push(Arg::Uint(*code));
                v.push(Arg::Text(message.clone()));
            },
            Event::DeleteId { id } => {
                v.push(Arg::Uint(*id));
            },
            Event::Global { name, interface, version } => {
                v.push(Arg::Uint(*name));
                v.push(Arg::Text(interface.clone()));
                v.push(Arg::Uint(*version));
            },
            Event::GlobalRemove { name } => {
                v.push(Arg::Uint(*name));
            },
            Event::CallbackDone { data } => {
                v.push(Arg::Uint(*data));
            },
            Event::SurfaceEnter { output } => {
                v.push(Arg::Object(*output));
            },
            Event::SurfaceLeave { output } => {
                v.push(Arg::Object(*output));
            },
            Event::ShmFormat { format } => {
                v.push(Arg::Uint(*format));
            },
            Event::SourceTarget { mime } => {
                v.push(Arg::OptText(mime.clone()));
            },
            Event::SourceSend { mime, fd } => {
                v.push(Arg::Text(mime.clone()));
                v.push(Arg::Fd(*fd));
            },
            Event::SourceAction { action } => {
                v.push(Arg::Uint(*action));
            },
            Event::DataOffer { id } => {
                v.push(Arg::Object(*id));
            },
            Event::DndEnter { serial, surface, x, y, id } => {
                v.push(Arg::Uint(*serial));
                v.push(Arg::Object(*surface));
                v.push(Arg::Fixed(*x));
                v.push(Arg::Fixed(*y));
                v.push(Arg::Object(*id));
            },
            Event::DndMotion { time, x, y } => {
                v.push(Arg::Uint(*time));
                v.push(Arg::Fixed(*x));
                v.push(Arg::Fixed(*y));
            },
            Event::Selection { id } => {
                v.push(Arg::Object(*id));
            },
            Event::OfferMime { mime } => {
                v.push(Arg::Text(mime.clone()));
            },
            Event::OfferSourceActions { actions } => {
                v.push(Arg::Uint(*actions));
            },
            Event::OfferAction { action } => {
                v.push(Arg::Uint(*action));
            },
            Event::FtlToplevel { id } => {
                v.push(Arg::NewId(*id));
            },
            Event::FtlTitle { title } => {
                v.push(Arg::Text(title.clone()));
            },
            Event::FtlAppId { app_id } => {
                v.push(Arg::Text(app_id.clone()));
            },
            Event::FtlOutputEnter { output } => {
                v.push(Arg::Object(*output));
            },
            Event::FtlOutputLeave { output } => {
                v.push(Arg::Object(*output));
            },
            Event::FtlState { activated, fullscreen } => {
                v.push(Arg::Array(put_states(*activated, *fullscreen)));
            },
            Event::ControlDataOffer { id } => {
                v.push(Arg::NewId(*id));
            },
            Event::ControlSelection { id } => {
                v.push(Arg::Object(*id));
            },
            Event::ControlPrimarySelection { id } => {
                v.push(Arg::Object(*id));
            },
            Event::ControlSend { mime, fd } => {
                v.push(Arg::Text(mime.clone()));
                v.push(Arg::Fd(*fd));
            },
            Event::ControlMime { mime } => {
                v.push(Arg::Text(mime.clone()));
            },
            Event::CopyBuffer { format, width, height, stride } => {
                v.push(Arg::Uint(*format));
                v.push(Arg::Uint(*width));
                v.push(Arg::Uint(*height));
                v.push(Arg::Uint(*stride));
            },
            Event::CopyFlags { flags } => {
                v.push(Arg::Uint(*flags));
            },
            Event::CopyReady { sec_hi, sec_lo, nsec } => {
                v.push(Arg::Uint(*sec_hi));
                v.push(Arg::Uint(*sec_lo));
                v.push(Arg::Uint(*nsec));
            },
            Event::CopyDamage { x, y, width, height } => {
                v.push(Arg::Uint(*x));
                v.push(Arg::Uint(*y));
                v.push(Arg::Uint(*width));
                v.push(Arg::Uint(*height));
            },
            Event::SessionBufferSize { width, height } => {
                v.push(Arg::Uint(*width));
                v.push(Arg::Uint(*height));
            },
            Event::SessionShmFormat { format } => {
                v.push(Arg::Uint(*format));
            },
            Event::FrameTransform { transform } => {
                v.push(Arg::Uint(*transform));
            },
            Event::FrameDamage { x, y, width, height } => {
                v.push(Arg::Int(*x));
                v.push(Arg::Int(*y));
                v.push(Arg::Int(*width));
                v.push(Arg::Int(*height));
            },
            Event::FramePresented { sec_hi, sec_lo, nsec } => {
                v.push(Arg::Uint(*sec_hi));
                v.push(Arg::Uint(*sec_lo));
                v.push(Arg::Uint(*nsec));
            },
            Event::FrameFailed { reason } => {
                v.push(Arg::Uint(*reason));
            },
            Event::PrimarySend { mime, fd } => {
                v.push(Arg::Text(mime.clone()));
                v.push(Arg::Fd(*fd));
            },
            Event::PrimaryDataOffer { id } => {
                v.push(Arg::Object(*id));
            },
            Event::PrimarySelection { id } => {
                v.push(Arg::Object(*id));
            },
            Event::PrimaryMime { mime } => {
                v.push(Arg::Text(mime.clone()));
            },
            Event::LayerConfigure { serial, width, height } => {
                v.push(Arg::Uint(*serial));
                v.push(Arg::Uint(*width));
                v.push(Arg::Uint(*height));
            },
            Event::LockConfigure { serial, width, height } => {
                v.push(Arg::Uint(*serial));
                v.push(Arg::Uint(*width));
                v.push(Arg::Uint(*height));
            },
            Event::TokenDone { token } => {
                v.push(Arg::Text(token.clone()));
            },
            _ => {},
        }
        assert(views(v@) =~= self.args_spec());
        v
    }
}

/// Every event has the number and the arguments its interface declares.
pub proof fn events_are_as_declared(e: Event)
    ensures
        e.opcode_spec() < events_spec(e.interface_spec()).len(),
        letters(e.args_spec()) == events_spec(e.interface_spec())[e.opcode_spec() as int].args,
{
    reveal_strlit("");
    reveal_strlit("S");
    reveal_strlit("a");
    reveal_strlit("iiii");
    reveal_strlit("n");
    reveal_strlit("o");
    reveal_strlit("ous");
    reveal_strlit("s");
    reveal_strlit("sh");
    reveal_strlit("u");
    reveal_strlit("uff");
    reveal_strlit("uoffo");
    reveal_strlit("usu");
    reveal_strlit("uu");
    reveal_strlit("uuu");
    reveal_strlit("uuuu");
    assert(letters(e.args_spec()) =~= events_spec(e.interface_spec())[e.opcode_spec() as int].args);
}

/// An event on its way to an object of a client.
pub struct Sent {
    pub client: u32,
    pub object: ObjectId,
    pub event: Event,
}

/// Events in the order they go out.
pub struct Out {
    pub sent: Vec<Sent>,
}

pub open spec fn sent(client: u32, object: ObjectId, event: Event) -> Sent {
    Sent { client, object, event }
}

/// The error that an object id names nothing usable.
pub open spec fn invalid_text(object: ObjectId) -> Seq<char> {
    "invalid object #"@ + digits(object.0 as nat)
}

/// Whether an event reports a broken rule on an object.
pub open spec fn is_error(s: Sent, client: u32, object: ObjectId, code: u32, text: Seq<char>) -> bool {
    s.client == client && s.object == ObjectId(1) && (s.event matches Event::Error { object: o, code: c, message } && o
        == object && c == code && message@ == text)
}

/// `after` is `before` and one error.
pub open spec fn refused(before: Out, after: Out, client: u32, object: ObjectId, code: u32, text: Seq<char>) -> bool {
    &&& after.sent@.len() == before.sent@.len() + 1
    &&& after.sent@.drop_last() == before.sent@
    &&& is_error(after.sent@.last(), client, object, code, text)
}

/// `after` is `before` and the error that `object` names nothing usable.
pub open spec fn told_invalid(before: Out, after: Out, client: u32, object: ObjectId) -> bool {
    refused(before, after, client, ObjectId(1), 0, invalid_text(object))
}

impl Out {
    pub fn new() -> (o: Out)
        ensures
            o.sent@.len() == 0,
    {
        Out { sent: Vec::new() }
    }

    pub fn event(&mut self, client: u32, object: ObjectId, event: Event)
        ensures
            final(self).sent@ == old(self).sent@.push(sent(client, object, event)),
    {
        self.sent.push(Sent { client, object, event });
    }

    /// Reports a broken rule on an object; the client is disconnected for it.
    pub fn protocol_error(&mut self, client: u32, object: ObjectId, code: u32, text: &str)
        ensures
            refused(*old(self), *final(self), client, object, code, text@),
    {
        self.event(client, ObjectId(1), Event::Error { object, code, message: text.to_owned() });
        assert(self.sent@.drop_last() =~= old(self).sent@);
    }

    /// Reports that an object id names nothing usable.
    pub fn invalid_object(&mut self, client: u32, object: ObjectId)
        ensures
            told_invalid(*old(self), *final(self), client, object),
    {
        let n: String = decimal_text(object.0 as u64);
        let text: String = "invalid object #".to_owned().concat(n.as_str());
        self.protocol_error(client, ObjectId(1), 0, text.as_str());
    }
}

impl Sent {
    /// Whether its texts fit a message.
    pub open spec fn fits(self) -> bool {
        &&& forall|i: int| 0 <= i < self.event.args_spec().len() ==> short(#[trigger] self.event.args_spec()[i])
        &&& 8 + encode_all(self.event.args_spec()).len() < 0x1_0000
    }

    /// Puts the event on the wire.
    pub fn write(&self, o: &mut EventOut)
        requires
            self.fits(),
        ensures
            final(o).bytes@ == old(o).bytes@ + message_bytes(
                self.object,
                self.event.opcode_spec(),
                self.event.args_spec(),
            ),
            final(o).fds@ == old(o).fds@ + fds_of(self.event.args_spec()),
    {
        let args: Vec<Arg> = self.event.args();
        proof {
            assert forall|i: int| 0 <= i < args@.len() implies short((#[trigger] args@[i])@) by {
                assert(views(args@)[i] == args@[i]@);
                assert(short(self.event.args_spec()[i]));
            }
        }
        o.send(self.object, self.event.opcode(), &args);
    }
}

} // verus!
