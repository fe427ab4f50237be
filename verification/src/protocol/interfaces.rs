//! The interfaces spoken here. Requests and events are numbered separately from
//! zero, in the order listed. A signature gives one letter per argument: `i` int,
//! `u` uint, `f` fixed, `o` object, `n` new id, `s` string, `S` nullable string, `a`
//! array, `h` file descriptor.
use crate::protocol::wire::{signature, Message};
use vstd::prelude::*;

verus! {

#[derive(Clone, Copy, Debug, PartialEq, Eq, Structural)]
pub enum Interface {
    WlDisplay,
    WlRegistry,
    WlCallback,
    WlCompositor,
    WlSurface,
    WlRegion,
    WlSubcompositor,
    WlSubsurface,
    WlShm,
    WlShmPool,
    WlBuffer,
    WlSeat,
    WlPointer,
    WlKeyboard,
    XdgWmBase,
    XdgPositioner,
    XdgSurface,
    XdgToplevel,
    XdgPopup,
    WlDataDeviceManager,
    WlDataSource,
    WlDataDevice,
    WlDataOffer,
    ExtIdleNotifierV1,
    ExtIdleNotificationV1,
    ZwpIdleInhibitManagerV1,
    ZwpIdleInhibitorV1,
    ZwlrForeignToplevelManagerV1,
    ZwlrForeignToplevelHandleV1,
    ZwlrDataControlManagerV1,
    ZwlrDataControlDeviceV1,
    ZwlrDataControlSourceV1,
    ZwlrDataControlOfferV1,
    ZwlrScreencopyManagerV1,
    ZwlrScreencopyFrameV1,
    ExtForeignToplevelListV1,
    ExtForeignToplevelHandleV1,
    ExtImageCaptureSourceV1,
    ExtOutputImageCaptureSourceManagerV1,
    ExtForeignToplevelImageCaptureSourceManagerV1,
    ExtImageCopyCaptureManagerV1,
    ExtImageCopyCaptureSessionV1,
    ExtImageCopyCaptureFrameV1,
    ExtImageCopyCaptureCursorSessionV1,
    ZwpLinuxDmabufV1,
    ZwpLinuxDmabufFeedbackV1,
    ZwpLinuxBufferParamsV1,
    ZwpRelativePointerManagerV1,
    ZwpRelativePointerV1,
    ZwpPointerConstraintsV1,
    ZwpLockedPointerV1,
    ZwpConfinedPointerV1,
    WpTearingControlManagerV1,
    WpTearingControlV1,
    ZxdgDecorationManagerV1,
    ZxdgToplevelDecorationV1,
    ZwpPrimarySelectionDeviceManagerV1,
    ZwpPrimarySelectionSourceV1,
    ZwpPrimarySelectionDeviceV1,
    ZwpPrimarySelectionOfferV1,
    XwaylandShellV1,
    XwaylandSurfaceV1,
    ZwlrLayerShellV1,
    ZwlrLayerSurfaceV1,
    ExtSessionLockManagerV1,
    ExtSessionLockV1,
    ExtSessionLockSurfaceV1,
    ZxdgOutputManagerV1,
    ZxdgOutputV1,
    WlOutput,
    XdgActivationV1,
    XdgActivationTokenV1,
}

/// A message as a contract speaks of it.
pub struct MessageV {
    pub name: Seq<char>,
    pub since: u32,
    pub args: Seq<char>,
}

pub open spec fn entry(name: Seq<char>, since: u32, args: Seq<char>) -> MessageV {
    MessageV { name, since, args }
}

/// The messages of a table.
pub open spec fn table(ms: Seq<Message>) -> Seq<MessageV> {
    ms.map_values(|m: Message| entry(m.name@, m.since, m.args@))
}

/// The requests of an interface, by opcode.
pub open spec fn requests_spec(i: Interface) -> Seq<MessageV> {
    match i {
        Interface::WlDisplay => seq![
            entry("sync"@, 1, "n"@),
            entry("get_registry"@, 1, "n"@),
        ],
        Interface::WlRegistry => seq![
            entry("bind"@, 1, "usun"@),
        ],
        Interface::WlCallback => Seq::empty(),
        Interface::WlCompositor => seq![
            entry("create_surface"@, 1, "n"@),
            entry("create_region"@, 1, "n"@),
        ],
        Interface::WlSurface => seq![
            entry("destroy"@, 1, ""@),
            entry("attach"@, 1, "oii"@),
            entry("damage"@, 1, "iiii"@),
            entry("frame"@, 1, "n"@),
            entry("set_opaque_region"@, 1, "o"@),
            entry("set_input_region"@, 1, "o"@),
            entry("commit"@, 1, ""@),
            entry("set_buffer_transform"@, 2, "i"@),
            entry("set_buffer_scale"@, 3, "i"@),
            entry("damage_buffer"@, 4, "iiii"@),
            entry("offset"@, 5, "ii"@),
        ],
        Interface::WlRegion => seq![
            entry("destroy"@, 1, ""@),
            entry("add"@, 1, "iiii"@),
            entry("subtract"@, 1, "iiii"@),
        ],
        Interface::WlSubcompositor => seq![
            entry("destroy"@, 1, ""@),
            entry("get_subsurface"@, 1, "noo"@),
        ],
        Interface::WlSubsurface => seq![
            entry("destroy"@, 1, ""@),
            entry("set_position"@, 1, "ii"@),
            entry("place_above"@, 1, "o"@),
            entry("place_below"@, 1, "o"@),
            entry("set_sync"@, 1, ""@),
            entry("set_desync"@, 1, ""@),
        ],
        Interface::WlShm => seq![
            entry("create_pool"@, 1, "nhi"@),
            entry("release"@, 2, ""@),
        ],
        Interface::WlShmPool => seq![
            entry("create_buffer"@, 1, "niiiiu"@),
            entry("destroy"@, 1, ""@),
            entry("resize"@, 1, "i"@),
        ],
        Interface::WlBuffer => seq![
            entry("destroy"@, 1, ""@),
        ],
        Interface::WlSeat => seq![
            entry("get_pointer"@, 1, "n"@),
            entry("get_keyboard"@, 1, "n"@),
            entry("get_touch"@, 1, "n"@),
            entry("release"@, 5, ""@),
        ],
        Interface::WlPointer => seq![
            entry("set_cursor"@, 1, "uoii"@),
            entry("release"@, 3, ""@),
        ],
        Interface::WlKeyboard => seq![
            entry("release"@, 3, ""@),
        ],
        Interface::XdgWmBase => seq![
            entry("destroy"@, 1, ""@),
            entry("create_positioner"@, 1, "n"@),
            entry("get_xdg_surface"@, 1, "no"@),
            entry("pong"@, 1, "u"@),
        ],
        Interface::XdgPositioner => seq![
            entry("destroy"@, 1, ""@),
            entry("set_size"@, 1, "ii"@),
            entry("set_anchor_rect"@, 1, "iiii"@),
            entry("set_anchor"@, 1, "u"@),
            entry("set_gravity"@, 1, "u"@),
            entry("set_constraint_adjustment"@, 1, "u"@),
            entry("set_offset"@, 1, "ii"@),
            entry("set_reactive"@, 3, ""@),
            entry("set_parent_size"@, 3, "ii"@),
            entry("set_parent_configure"@, 3, "u"@),
        ],
        Interface::XdgSurface => seq![
            entry("destroy"@, 1, ""@),
            entry("get_toplevel"@, 1, "n"@),
            entry("get_popup"@, 1, "noo"@),
            entry("set_window_geometry"@, 1, "iiii"@),
            entry("ack_configure"@, 1, "u"@),
        ],
        Interface::XdgToplevel => seq![
            entry("destroy"@, 1, ""@),
            entry("set_parent"@, 1, "o"@),
            entry("set_title"@, 1, "s"@),
            entry("set_app_id"@, 1, "s"@),
            entry("show_window_menu"@, 1, "ouii"@),
            entry("move"@, 1, "ou"@),
            entry("resize"@, 1, "ouu"@),
            entry("set_max_size"@, 1, "ii"@),
            entry("set_min_size"@, 1, "ii"@),
            entry("set_maximized"@, 1, ""@),
            entry("unset_maximized"@, 1, ""@),
            entry("set_fullscreen"@, 1, "o"@),
            entry("unset_fullscreen"@, 1, ""@),
            entry("set_minimized"@, 1, ""@),
        ],
        Interface::XdgPopup => seq![
            entry("destroy"@, 1, ""@),
            entry("grab"@, 1, "ou"@),
            entry("reposition"@, 3, "ou"@),
        ],
        Interface::WlDataDeviceManager => seq![
            entry("create_data_source"@, 1, "n"@),
            entry("get_data_device"@, 1, "no"@),
        ],
        Interface::WlDataSource => seq![
            entry("offer"@, 1, "s"@),
            entry("destroy"@, 1, ""@),
            entry("set_actions"@, 3, "u"@),
        ],
        Interface::WlDataDevice => seq![
            entry("start_drag"@, 1, "ooou"@),
            entry("set_selection"@, 1, "ou"@),
            entry("release"@, 2, ""@),
        ],
        Interface::WlDataOffer => seq![
            entry("accept"@, 1, "uS"@),
            entry("receive"@, 1, "sh"@),
            entry("destroy"@, 1, ""@),
            entry("finish"@, 3, ""@),
            entry("set_actions"@, 3, "uu"@),
        ],
        Interface::ExtIdleNotifierV1 => seq![
            entry("destroy"@, 1, ""@),
            entry("get_idle_notification"@, 1, "nuo"@),
        ],
        Interface::ExtIdleNotificationV1 => seq![
            entry("destroy"@, 1, ""@),
        ],
        Interface::ZwpIdleInhibitManagerV1 => seq![
            entry("destroy"@, 1, ""@),
            entry("create_inhibitor"@, 1, "no"@),
        ],
        Interface::ZwpIdleInhibitorV1 => seq![
            entry("destroy"@, 1, ""@),
        ],
        Interface::ZwlrForeignToplevelManagerV1 => seq![
            entry("stop"@, 1, ""@),
        ],
        Interface::ZwlrForeignToplevelHandleV1 => seq![
            entry("set_maximized"@, 1, ""@),
            entry("unset_maximized"@, 1, ""@),
            entry("set_minimized"@, 1, ""@),
            entry("unset_minimized"@, 1, ""@),
            entry("activate"@, 1, "o"@),
            entry("close"@, 1, ""@),
            entry("set_rectangle"@, 1, "oiiii"@),
            entry("destroy"@, 1, ""@),
            entry("set_fullscreen"@, 2, "o"@),
            entry("unset_fullscreen"@, 2, ""@),
        ],
        Interface::ZwlrDataControlManagerV1 => seq![
            entry("create_data_source"@, 1, "n"@),
            entry("get_data_device"@, 1, "no"@),
            entry("destroy"@, 1, ""@),
        ],
        Interface::ZwlrDataControlDeviceV1 => seq![
            entry("set_selection"@, 1, "o"@),
            entry("destroy"@, 1, ""@),
            entry("set_primary_selection"@, 2, "o"@),
        ],
        Interface::ZwlrDataControlSourceV1 => seq![
            entry("offer"@, 1, "s"@),
            entry("destroy"@, 1, ""@),
        ],
        Interface::ZwlrDataControlOfferV1 => seq![
            entry("receive"@, 1, "sh"@),
            entry("destroy"@, 1, ""@),
        ],
        Interface::ZwlrScreencopyManagerV1 => seq![
            entry("capture_output"@, 1, "nio"@),
            entry("capture_output_region"@, 1, "nioiiii"@),
            entry("destroy"@, 1, ""@),
        ],
        Interface::ZwlrScreencopyFrameV1 => seq![
            entry("copy"@, 1, "o"@),
            entry("destroy"@, 1, ""@),
            entry("copy_with_damage"@, 2, "o"@),
        ],
        Interface::ExtForeignToplevelListV1 => seq![
            entry("stop"@, 1, ""@),
            entry("destroy"@, 1, ""@),
        ],
        Interface::ExtForeignToplevelHandleV1 => seq![
            entry("destroy"@, 1, ""@),
        ],
        Interface::ExtImageCaptureSourceV1 => seq![
            entry("destroy"@, 1, ""@),
        ],
        Interface::ExtOutputImageCaptureSourceManagerV1 => seq![
            entry("create_source"@, 1, "no"@),
            entry("destroy"@, 1, ""@),
        ],
        Interface::ExtForeignToplevelImageCaptureSourceManagerV1 => seq![
            entry("create_source"@, 1, "no"@),
            entry("destroy"@, 1, ""@),
        ],
        Interface::ExtImageCopyCaptureManagerV1 => seq![
            entry("create_session"@, 1, "nou"@),
            entry("create_pointer_cursor_session"@, 1, "noo"@),
            entry("destroy"@, 1, ""@),
        ],
        Interface::ExtImageCopyCaptureSessionV1 => seq![
            entry("create_frame"@, 1, "n"@),
            entry("destroy"@, 1, ""@),
        ],
        Interface::ExtImageCopyCaptureFrameV1 => seq![
            entry("destroy"@, 1, ""@),
            entry("attach_buffer"@, 1, "o"@),
            entry("damage_buffer"@, 1, "iiii"@),
            entry("capture"@, 1, ""@),
        ],
        Interface::ExtImageCopyCaptureCursorSessionV1 => seq![
            entry("destroy"@, 1, ""@),
            entry("get_capture_session"@, 1, "n"@),
        ],
        Interface::ZwpLinuxDmabufV1 => seq![
            entry("destroy"@, 1, ""@),
            entry("create_params"@, 1, "n"@),
            entry("get_default_feedback"@, 4, "n"@),
            entry("get_surface_feedback"@, 4, "no"@),
        ],
        Interface::ZwpLinuxDmabufFeedbackV1 => seq![
            entry("destroy"@, 1, ""@),
        ],
        Interface::ZwpLinuxBufferParamsV1 => seq![
            entry("destroy"@, 1, ""@),
            entry("add"@, 1, "huuuuu"@),
            entry("create"@, 1, "iiuu"@),
            entry("create_immed"@, 2, "niiuu"@),
        ],
        Interface::ZwpRelativePointerManagerV1 => seq![
            entry("destroy"@, 1, ""@),
            entry("get_relative_pointer"@, 1, "no"@),
        ],
        Interface::ZwpRelativePointerV1 => seq![
            entry("destroy"@, 1, ""@),
        ],
        Interface::ZwpPointerConstraintsV1 => seq![
            entry("destroy"@, 1, ""@),
            entry("lock_pointer"@, 1, "nooou"@),
            entry("confine_pointer"@, 1, "nooou"@),
        ],
        Interface::ZwpLockedPointerV1 => seq![
            entry("destroy"@, 1, ""@),
            entry("set_cursor_position_hint"@, 1, "ff"@),
            entry("set_region"@, 1, "o"@),
        ],
        Interface::ZwpConfinedPointerV1 => seq![
            entry("destroy"@, 1, ""@),
            entry("set_region"@, 1, "o"@),
        ],
        Interface::WpTearingControlManagerV1 => seq![
            entry("destroy"@, 1, ""@),
            entry("get_tearing_control"@, 1, "no"@),
        ],
        Interface::WpTearingControlV1 => seq![
            entry("set_presentation_hint"@, 1, "u"@),
            entry("destroy"@, 1, ""@),
        ],
        Interface::ZxdgDecorationManagerV1 => seq![
            entry("destroy"@, 1, ""@),
            entry("get_toplevel_decoration"@, 1, "no"@),
        ],
        Interface::ZxdgToplevelDecorationV1 => seq![
            entry("destroy"@, 1, ""@),
            entry("set_mode"@, 1, "u"@),
            entry("unset_mode"@, 1, ""@),
        ],
        Interface::ZwpPrimarySelectionDeviceManagerV1 => seq![
            entry("create_source"@, 1, "n"@),
            entry("get_device"@, 1, "no"@),
            entry("destroy"@, 1, ""@),
        ],
        Interface::ZwpPrimarySelectionSourceV1 => seq![
            entry("offer"@, 1, "s"@),
            entry("destroy"@, 1, ""@),
        ],
        Interface::ZwpPrimarySelectionDeviceV1 => seq![
            entry("set_selection"@, 1, "ou"@),
            entry("destroy"@, 1, ""@),
        ],
        Interface::ZwpPrimarySelectionOfferV1 => seq![
            entry("receive"@, 1, "sh"@),
            entry("destroy"@, 1, ""@),
        ],
        Interface::XwaylandShellV1 => seq![
            entry("destroy"@, 1, ""@),
            entry("get_xwayland_surface"@, 1, "no"@),
        ],
        Interface::XwaylandSurfaceV1 => seq![
            entry("set_serial"@, 1, "uu"@),
            entry("destroy"@, 1, ""@),
        ],
        Interface::ZwlrLayerShellV1 => seq![
            entry("get_layer_surface"@, 1, "noous"@),
            entry("destroy"@, 3, ""@),
        ],
        Interface::ZwlrLayerSurfaceV1 => seq![
            entry("set_size"@, 1, "uu"@),
            entry("set_anchor"@, 1, "u"@),
            entry("set_exclusive_zone"@, 1, "i"@),
            entry("set_margin"@, 1, "iiii"@),
            entry("set_keyboard_interactivity"@, 1, "u"@),
            entry("get_popup"@, 1, "o"@),
            entry("ack_configure"@, 1, "u"@),
            entry("destroy"@, 1, ""@),
            entry("set_layer"@, 2, "u"@),
            entry("set_exclusive_edge"@, 5, "u"@),
        ],
        Interface::ExtSessionLockManagerV1 => seq![
            entry("destroy"@, 1, ""@),
            entry("lock"@, 1, "n"@),
        ],
        Interface::ExtSessionLockV1 => seq![
            entry("destroy"@, 1, ""@),
            entry("get_lock_surface"@, 1, "noo"@),
            entry("unlock_and_destroy"@, 1, ""@),
        ],
        Interface::ExtSessionLockSurfaceV1 => seq![
            entry("destroy"@, 1, ""@),
            entry("ack_configure"@, 1, "u"@),
        ],
        Interface::ZxdgOutputManagerV1 => seq![
            entry("destroy"@, 1, ""@),
            entry("get_xdg_output"@, 1, "no"@),
        ],
        Interface::ZxdgOutputV1 => seq![
            entry("destroy"@, 1, ""@),
        ],
        Interface::WlOutput => seq![
            entry("release"@, 3, ""@),
        ],
        Interface::XdgActivationV1 => seq![
            entry("destroy"@, 1, ""@),
            entry("get_activation_token"@, 1, "n"@),
            entry("activate"@, 1, "so"@),
        ],
        Interface::XdgActivationTokenV1 => seq![
            entry("set_serial"@, 1, "uo"@),
            entry("set_app_id"@, 1, "s"@),
            entry("set_surface"@, 1, "o"@),
            entry("commit"@, 1, ""@),
            entry("destroy"@, 1, ""@),
        ],
    }
}

/// The events of an interface, by opcode.
pub open spec fn events_spec(i: Interface) -> Seq<MessageV> {
    match i {
        Interface::WlDisplay => seq![
            entry("error"@, 1, "ous"@),
            entry("delete_id"@, 1, "u"@),
        ],
        Interface::WlRegistry => seq![
            entry("global"@, 1, "usu"@),
            entry("global_remove"@, 1, "u"@),
        ],
        Interface::WlCallback => seq![
            entry("done"@, 1, "u"@),
        ],
        Interface::WlCompositor => Seq::empty(),
        Interface::WlSurface => seq![
            entry("enter"@, 1, "o"@),
            entry("leave"@, 1, "o"@),
            entry("preferred_buffer_scale"@, 6, "i"@),
            entry("preferred_buffer_transform"@, 6, "u"@),
        ],
        Interface::WlRegion => Seq::empty(),
        Interface::WlSubcompositor => Seq::empty(),
        Interface::WlSubsurface => Seq::empty(),
        Interface::WlShm => seq![
            entry("format"@, 1, "u"@),
        ],
        Interface::WlShmPool => Seq::empty(),
        Interface::WlBuffer => seq![
            entry("release"@, 1, ""@),
        ],
        Interface::WlSeat => seq![
            entry("capabilities"@, 1, "u"@),
            entry("name"@, 2, "s"@),
        ],
        Interface::WlPointer => seq![
            entry("enter"@, 1, "uoff"@),
            entry("leave"@, 1, "uo"@),
            entry("motion"@, 1, "uff"@),
            entry("button"@, 1, "uuuu"@),
            entry("axis"@, 1, "uuf"@),
            entry("frame"@, 5, ""@),
            entry("axis_source"@, 5, "u"@),
            entry("axis_stop"@, 5, "uu"@),
            entry("axis_discrete"@, 5, "ui"@),
            entry("axis_value120"@, 8, "ui"@),
            entry("axis_relative_direction"@, 9, "uu"@),
        ],
        Interface::WlKeyboard => seq![
            entry("keymap"@, 1, "uhu"@),
            entry("enter"@, 1, "uoa"@),
            entry("leave"@, 1, "uo"@),
            entry("key"@, 1, "uuuu"@),
            entry("modifiers"@, 1, "uuuuu"@),
            entry("repeat_info"@, 4, "ii"@),
        ],
        Interface::XdgWmBase => seq![
            entry("ping"@, 1, "u"@),
        ],
        Interface::XdgPositioner => Seq::empty(),
        Interface::XdgSurface => seq![
            entry("configure"@, 1, "u"@),
        ],
        Interface::XdgToplevel => seq![
            entry("configure"@, 1, "iia"@),
            entry("close"@, 1, ""@),
            entry("configure_bounds"@, 4, "ii"@),
            entry("wm_capabilities"@, 5, "a"@),
        ],
        Interface::XdgPopup => seq![
            entry("configure"@, 1, "iiii"@),
            entry("popup_done"@, 1, ""@),
            entry("repositioned"@, 3, "u"@),
        ],
        Interface::WlDataDeviceManager => Seq::empty(),
        Interface::WlDataSource => seq![
            entry("target"@, 1, "S"@),
            entry("send"@, 1, "sh"@),
            entry("cancelled"@, 1, ""@),
            entry("dnd_drop_performed"@, 3, ""@),
            entry("dnd_finished"@, 3, ""@),
            entry("action"@, 3, "u"@),
        ],
        Interface::WlDataDevice => seq![
            entry("data_offer"@, 1, "o"@),
            entry("enter"@, 1, "uoffo"@),
            entry("leave"@, 1, ""@),
            entry("motion"@, 1, "uff"@),
            entry("drop"@, 1, ""@),
            entry("selection"@, 1, "o"@),
        ],
        Interface::WlDataOffer => seq![
            entry("offer"@, 1, "s"@),
            entry("source_actions"@, 3, "u"@),
            entry("action"@, 3, "u"@),
        ],
        Interface::ExtIdleNotifierV1 => Seq::empty(),
        Interface::ExtIdleNotificationV1 => seq![
            entry("idled"@, 1, ""@),
            entry("resumed"@, 1, ""@),
        ],
        Interface::ZwpIdleInhibitManagerV1 => Seq::empty(),
        Interface::ZwpIdleInhibitorV1 => Seq::empty(),
        Interface::ZwlrForeignToplevelManagerV1 => seq![
            entry("toplevel"@, 1, "n"@),
            entry("finished"@, 1, ""@),
        ],
        Interface::ZwlrForeignToplevelHandleV1 => seq![
            entry("title"@, 1, "s"@),
            entry("app_id"@, 1, "s"@),
            entry("output_enter"@, 1, "o"@),
            entry("output_leave"@, 1, "o"@),
            entry("state"@, 1, "a"@),
            entry("done"@, 1, ""@),
            entry("closed"@, 1, ""@),
            entry("parent"@, 3, "o"@),
        ],
        Interface::ZwlrDataControlManagerV1 => Seq::empty(),
        Interface::ZwlrDataControlDeviceV1 => seq![
            entry("data_offer"@, 1, "n"@),
            entry("selection"@, 1, "o"@),
            entry("finished"@, 1, ""@),
            entry("primary_selection"@, 2, "o"@),
        ],
        Interface::ZwlrDataControlSourceV1 => seq![
            entry("send"@, 1, "sh"@),
            entry("cancelled"@, 1, ""@),
        ],
        Interface::ZwlrDataControlOfferV1 => seq![
            entry("offer"@, 1, "s"@),
        ],
        Interface::ZwlrScreencopyManagerV1 => Seq::empty(),
        Interface::ZwlrScreencopyFrameV1 => seq![
            entry("buffer"@, 1, "uuuu"@),
            entry("flags"@, 1, "u"@),
            entry("ready"@, 1, "uuu"@),
            entry("failed"@, 1, ""@),
            entry("damage"@, 2, "uuuu"@),
            entry("linux_dmabuf"@, 3, "uuu"@),
            entry("buffer_done"@, 3, ""@),
        ],
        Interface::ExtForeignToplevelListV1 => seq![
            entry("toplevel"@, 1, "n"@),
            entry("finished"@, 1, ""@),
        ],
        Interface::ExtForeignToplevelHandleV1 => seq![
            entry("closed"@, 1, ""@),
            entry("done"@, 1, ""@),
            entry("title"@, 1, "s"@),
            entry("app_id"@, 1, "s"@),
            entry("identifier"@, 1, "s"@),
        ],
        Interface::ExtImageCaptureSourceV1 => Seq::empty(),
        Interface::ExtOutputImageCaptureSourceManagerV1 => Seq::empty(),
        Interface::ExtForeignToplevelImageCaptureSourceManagerV1 => Seq::empty(),
        Interface::ExtImageCopyCaptureManagerV1 => Seq::empty(),
        Interface::ExtImageCopyCaptureSessionV1 => seq![
            entry("buffer_size"@, 1, "uu"@),
            entry("shm_format"@, 1, "u"@),
            entry("dmabuf_device"@, 1, "a"@),
            entry("dmabuf_format"@, 1, "ua"@),
            entry("done"@, 1, ""@),
            entry("stopped"@, 1, ""@),
        ],
        Interface::ExtImageCopyCaptureFrameV1 => seq![
            entry("transform"@, 1, "u"@),
            entry("damage"@, 1, "iiii"@),
            entry("presentation_time"@, 1, "uuu"@),
            entry("ready"@, 1, ""@),
            entry("failed"@, 1, "u"@),
        ],
        Interface::ExtImageCopyCaptureCursorSessionV1 => seq![
            entry("enter"@, 1, ""@),
            entry("leave"@, 1, ""@),
            entry("position"@, 1, "ii"@),
            entry("hotspot"@, 1, "ii"@),
        ],
        Interface::ZwpLinuxDmabufV1 => seq![
            entry("format"@, 1, "u"@),
            entry("modifier"@, 3, "uuu"@),
        ],
        Interface::ZwpLinuxDmabufFeedbackV1 => seq![
            entry("done"@, 1, ""@),
            entry("format_table"@, 1, "hu"@),
            entry("main_device"@, 1, "a"@),
            entry("tranche_done"@, 1, ""@),
            entry("tranche_target_device"@, 1, "a"@),
            entry("tranche_formats"@, 1, "a"@),
            entry("tranche_flags"@, 1, "u"@),
        ],
        Interface::ZwpLinuxBufferParamsV1 => seq![
            entry("created"@, 1, "n"@),
            entry("failed"@, 1, ""@),
        ],
        Interface::ZwpRelativePointerManagerV1 => Seq::empty(),
        Interface::ZwpRelativePointerV1 => seq![
            entry("relative_motion"@, 1, "uuffff"@),
        ],
        Interface::ZwpPointerConstraintsV1 => Seq::empty(),
        Interface::ZwpLockedPointerV1 => seq![
            entry("locked"@, 1, ""@),
            entry("unlocked"@, 1, ""@),
        ],
        Interface::ZwpConfinedPointerV1 => seq![
            entry("confined"@, 1, ""@),
            entry("unconfined"@, 1, ""@),
        ],
        Interface::WpTearingControlManagerV1 => Seq::empty(),
        Interface::WpTearingControlV1 => Seq::empty(),
        Interface::ZxdgDecorationManagerV1 => Seq::empty(),
        Interface::ZxdgToplevelDecorationV1 => seq![
            entry("configure"@, 1, "u"@),
        ],
        Interface::ZwpPrimarySelectionDeviceManagerV1 => Seq::empty(),
        Interface::ZwpPrimarySelectionSourceV1 => seq![
            entry("send"@, 1, "sh"@),
            entry("cancelled"@, 1, ""@),
        ],
        Interface::ZwpPrimarySelectionDeviceV1 => seq![
            entry("data_offer"@, 1, "o"@),
            entry("selection"@, 1, "o"@),
        ],
        Interface::ZwpPrimarySelectionOfferV1 => seq![
            entry("offer"@, 1, "s"@),
        ],
        Interface::XwaylandShellV1 => Seq::empty(),
        Interface::XwaylandSurfaceV1 => Seq::empty(),
        Interface::ZwlrLayerShellV1 => Seq::empty(),
        Interface::ZwlrLayerSurfaceV1 => seq![
            entry("configure"@, 1, "uuu"@),
            entry("closed"@, 1, ""@),
        ],
        Interface::ExtSessionLockManagerV1 => Seq::empty(),
        Interface::ExtSessionLockV1 => seq![
            entry("locked"@, 1, ""@),
            entry("finished"@, 1, ""@),
        ],
        Interface::ExtSessionLockSurfaceV1 => seq![
            entry("configure"@, 1, "uuu"@),
        ],
        Interface::ZxdgOutputManagerV1 => Seq::empty(),
        Interface::ZxdgOutputV1 => seq![
            entry("logical_position"@, 1, "ii"@),
            entry("logical_size"@, 1, "ii"@),
            entry("done"@, 1, ""@),
            entry("name"@, 2, "s"@),
            entry("description"@, 2, "s"@),
        ],
        Interface::WlOutput => seq![
            entry("geometry"@, 1, "iiiiissi"@),
            entry("mode"@, 1, "uiii"@),
            entry("done"@, 2, ""@),
            entry("scale"@, 2, "i"@),
            entry("name"@, 4, "s"@),
            entry("description"@, 4, "s"@),
        ],
        Interface::XdgActivationV1 => Seq::empty(),
        Interface::XdgActivationTokenV1 => seq![
            entry("done"@, 1, "s"@),
        ],
    }
}

/// Every signature is made of argument letters.
pub open spec fn lettered(ms: Seq<Message>) -> bool {
    forall|i: int| 0 <= i < ms.len() ==> signature((#[trigger] ms[i]).args@)
}

fn message(name: &'static str, since: u32, args: &'static str) -> (m: Message)
    ensures
        m.name@ == name@,
        m.since == since,
        m.args@ == args@,
{
    Message { name, since, args }
}

fn wl_display_requests() -> (r: Vec<Message>)
    ensures
        table(r@) == requests_spec(Interface::WlDisplay),
        lettered(r@),
{
    proof {
        reveal_strlit("n");
    }
    let mut v: Vec<Message> = Vec::new();
    v.push(message("sync", 1, "n"));
    v.push(message("get_registry", 1, "n"));
    assert(table(v@) =~= requests_spec(Interface::WlDisplay));
    v
}

fn wl_registry_requests() -> (r: Vec<Message>)
    ensures
        table(r@) == requests_spec(Interface::WlRegistry),
        lettered(r@),
{
    proof {
        reveal_strlit("usun");
    }
    let mut v: Vec<Message> = Vec::new();
    v.push(message("bind", 1, "usun"));
    assert(table(v@) =~= requests_spec(Interface::WlRegistry));
    v
}

fn wl_compositor_requests() -> (r: Vec<Message>)
    ensures
        table(r@) == requests_spec(Interface::WlCompositor),
        lettered(r@),
{
    proof {
        reveal_strlit("n");
    }
    let mut v: Vec<Message> = Vec::new();
    v.push(message("create_surface", 1, "n"));
    v.push(message("create_region", 1, "n"));
    assert(table(v@) =~= requests_spec(Interface::WlCompositor));
    v
}

fn wl_surface_requests() -> (r: Vec<Message>)
    ensures
        table(r@) == requests_spec(Interface::WlSurface),
        lettered(r@),
{
    proof {
        reveal_strlit("");
        reveal_strlit("i");
        reveal_strlit("ii");
        reveal_strlit("iiii");
        reveal_strlit("n");
        reveal_strlit("o");
        reveal_strlit("oii");
    }
    let mut v: Vec<Message> = Vec::new();
    v.push(message("destroy", 1, ""));
    v.push(message("attach", 1, "oii"));
    v.push(message("damage", 1, "iiii"));
    v.push(message("frame", 1, "n"));
    v.push(message("set_opaque_region", 1, "o"));
    v.push(message("set_input_region", 1, "o"));
    v.push(message("commit", 1, ""));
    v.push(message("set_buffer_transform", 2, "i"));
    v.push(message("set_buffer_scale", 3, "i"));
    v.push(message("damage_buffer", 4, "iiii"));
    v.push(message("offset", 5, "ii"));
    assert(table(v@) =~= requests_spec(Interface::WlSurface));
    v
}

fn wl_region_requests() -> (r: Vec<Message>)
    ensures
        table(r@) == requests_spec(Interface::WlRegion),
        lettered(r@),
{
    proof {
        reveal_strlit("");
        reveal_strlit("iiii");
    }
    let mut v: Vec<Message> = Vec::new();
    v.push(message("destroy", 1, ""));
    v.push(message("add", 1, "iiii"));
    v.push(message("subtract", 1, "iiii"));
    assert(table(v@) =~= requests_spec(Interface::WlRegion));
    v
}

fn wl_subcompositor_requests() -> (r: Vec<Message>)
    ensures
        table(r@) == requests_spec(Interface::WlSubcompositor),
        lettered(r@),
{
    proof {
        reveal_strlit("");
        reveal_strlit("noo");
    }
    let mut v: Vec<Message> = Vec::new();
    v.push(message("destroy", 1, ""));
    v.push(message("get_subsurface", 1, "noo"));
    assert(table(v@) =~= requests_spec(Interface::WlSubcompositor));
    v
}

fn wl_subsurface_requests() -> (r: Vec<Message>)
    ensures
        table(r@) == requests_spec(Interface::WlSubsurface),
        lettered(r@),
{
    proof {
        reveal_strlit("");
        reveal_strlit("ii");
        reveal_strlit("o");
    }
    let mut v: Vec<Message> = Vec::new();
    v.push(message("destroy", 1, ""));
    v.push(message("set_position", 1, "ii"));
    v.push(message("place_above", 1, "o"));
    v.push(message("place_below", 1, "o"));
    v.push(message("set_sync", 1, ""));
    v.push(message("set_desync", 1, ""));
    assert(table(v@) =~= requests_spec(Interface::WlSubsurface));
    v
}

fn wl_shm_requests() -> (r: Vec<Message>)
    ensures
        table(r@) == requests_spec(Interface::WlShm),
        lettered(r@),
{
    proof {
        reveal_strlit("");
        reveal_strlit("nhi");
    }
    let mut v: Vec<Message> = Vec::new();
    v.push(message("create_pool", 1, "nhi"));
    v.push(message("release", 2, ""));
    assert(table(v@) =~= requests_spec(Interface::WlShm));
    v
}

fn wl_shm_pool_requests() -> (r: Vec<Message>)
    ensures
        table(r@) == requests_spec(Interface::WlShmPool),
        lettered(r@),
{
    proof {
        reveal_strlit("");
        reveal_strlit("i");
        reveal_strlit("niiiiu");
    }
    let mut v: Vec<Message> = Vec::new();
    v.push(message("create_buffer", 1, "niiiiu"));
    v.push(message("destroy", 1, ""));
    v.push(message("resize", 1, "i"));
    assert(table(v@) =~= requests_spec(Interface::WlShmPool));
    v
}

fn wl_buffer_requests() -> (r: Vec<Message>)
    ensures
        table(r@) == requests_spec(Interface::WlBuffer),
        lettered(r@),
{
    proof {
        reveal_strlit("");
    }
    let mut v: Vec<Message> = Vec::new();
    v.push(message("destroy", 1, ""));
    assert(table(v@) =~= requests_spec(Interface::WlBuffer));
    v
}

fn wl_seat_requests() -> (r: Vec<Message>)
    ensures
        table(r@) == requests_spec(Interface::WlSeat),
        lettered(r@),
{
    proof {
        reveal_strlit("");
        reveal_strlit("n");
    }
    let mut v: Vec<Message> = Vec::new();
    v.push(message("get_pointer", 1, "n"));
    v.push(message("get_keyboard", 1, "n"));
    v.push(message("get_touch", 1, "n"));
    v.push(message("release", 5, ""));
    assert(table(v@) =~= requests_spec(Interface::WlSeat));
    v
}

fn wl_pointer_requests() -> (r: Vec<Message>)
    ensures
        table(r@) == requests_spec(Interface::WlPointer),
        lettered(r@),
{
    proof {
        reveal_strlit("");
        reveal_strlit("uoii");
    }
    let mut v: Vec<Message> = Vec::new();
    v.push(message("set_cursor", 1, "uoii"));
    v.push(message("release", 3, ""));
    assert(table(v@) =~= requests_spec(Interface::WlPointer));
    v
}

fn wl_keyboard_requests() -> (r: Vec<Message>)
    ensures
        table(r@) == requests_spec(Interface::WlKeyboard),
        lettered(r@),
{
    proof {
        reveal_strlit("");
    }
    let mut v: Vec<Message> = Vec::new();
    v.push(message("release", 3, ""));
    assert(table(v@) =~= requests_spec(Interface::WlKeyboard));
    v
}

fn xdg_wm_base_requests() -> (r: Vec<Message>)
    ensures
        table(r@) == requests_spec(Interface::XdgWmBase),
        lettered(r@),
{
    proof {
        reveal_strlit("");
        reveal_strlit("n");
        reveal_strlit("no");
        reveal_strlit("u");
    }
    let mut v: Vec<Message> = Vec::new();
    v.push(message("destroy", 1, ""));
    v.push(message("create_positioner", 1, "n"));
    v.push(message("get_xdg_surface", 1, "no"));
    v.push(message("pong", 1, "u"));
    assert(table(v@) =~= requests_spec(Interface::XdgWmBase));
    v
}

fn xdg_positioner_requests() -> (r: Vec<Message>)
    ensures
        table(r@) == requests_spec(Interface::XdgPositioner),
        lettered(r@),
{
    proof {
        reveal_strlit("");
        reveal_strlit("ii");
        reveal_strlit("iiii");
        reveal_strlit("u");
    }
    let mut v: Vec<Message> = Vec::new();
    v.push(message("destroy", 1, ""));
    v.push(message("set_size", 1, "ii"));
    v.push(message("set_anchor_rect", 1, "iiii"));
    v.push(message("set_anchor", 1, "u"));
    v.push(message("set_gravity", 1, "u"));
    v.push(message("set_constraint_adjustment", 1, "u"));
    v.push(message("set_offset", 1, "ii"));
    v.push(message("set_reactive", 3, ""));
    v.push(message("set_parent_size", 3, "ii"));
    v.push(message("set_parent_configure", 3, "u"));
    assert(table(v@) =~= requests_spec(Interface::XdgPositioner));
    v
}

fn xdg_surface_requests() -> (r: Vec<Message>)
    ensures
        table(r@) == requests_spec(Interface::XdgSurface),
        lettered(r@),
{
    proof {
        reveal_strlit("");
        reveal_strlit("iiii");
        reveal_strlit("n");
        reveal_strlit("noo");
        reveal_strlit("u");
    }
    let mut v: Vec<Message> = Vec::new();
    v.push(message("destroy", 1, ""));
    v.push(message("get_toplevel", 1, "n"));
    v.push(message("get_popup", 1, "noo"));
    v.push(message("set_window_geometry", 1, "iiii"));
    v.push(message("ack_configure", 1, "u"));
    assert(table(v@) =~= requests_spec(Interface::XdgSurface));
    v
}

fn xdg_toplevel_requests() -> (r: Vec<Message>)
    ensures
        table(r@) == requests_spec(Interface::XdgToplevel),
        lettered(r@),
{
    proof {
        reveal_strlit("");
        reveal_strlit("ii");
        reveal_strlit("o");
        reveal_strlit("ou");
        reveal_strlit("ouii");
        reveal_strlit("ouu");
        reveal_strlit("s");
    }
    let mut v: Vec<Message> = Vec::new();
    v.push(message("destroy", 1, ""));
    v.push(message("set_parent", 1, "o"));
    v.push(message("set_title", 1, "s"));
    v.push(message("set_app_id", 1, "s"));
    v.push(message("show_window_menu", 1, "ouii"));
    v.push(message("move", 1, "ou"));
    v.push(message("resize", 1, "ouu"));
    v.push(message("set_max_size", 1, "ii"));
    v.push(message("set_min_size", 1, "ii"));
    v.push(message("set_maximized", 1, ""));
    v.push(message("unset_maximized", 1, ""));
    v.push(message("set_fullscreen", 1, "o"));
    v.push(message("unset_fullscreen", 1, ""));
    v.push(message("set_minimized", 1, ""));
    assert(table(v@) =~= requests_spec(Interface::XdgToplevel));
    v
}

fn xdg_popup_requests() -> (r: Vec<Message>)
    ensures
        table(r@) == requests_spec(Interface::XdgPopup),
        lettered(r@),
{
    proof {
        reveal_strlit("");
        reveal_strlit("ou");
    }
    let mut v: Vec<Message> = Vec::new();
    v.push(message("destroy", 1, ""));
    v.push(message("grab", 1, "ou"));
    v.push(message("reposition", 3, "ou"));
    assert(table(v@) =~= requests_spec(Interface::XdgPopup));
    v
}

fn wl_data_device_manager_requests() -> (r: Vec<Message>)
    ensures
        table(r@) == requests_spec(Interface::WlDataDeviceManager),
        lettered(r@),
{
    proof {
        reveal_strlit("n");
        reveal_strlit("no");
    }
    let mut v: Vec<Message> = Vec::new();
    v.push(message("create_data_source", 1, "n"));
    v.push(message("get_data_device", 1, "no"));
    assert(table(v@) =~= requests_spec(Interface::WlDataDeviceManager));
    v
}

fn wl_data_source_requests() -> (r: Vec<Message>)
    ensures
        table(r@) == requests_spec(Interface::WlDataSource),
        lettered(r@),
{
    proof {
        reveal_strlit("");
        reveal_strlit("s");
        reveal_strlit("u");
    }
    let mut v: Vec<Message> = Vec::new();
    v.push(message("offer", 1, "s"));
    v.push(message("destroy", 1, ""));
    v.push(message("set_actions", 3, "u"));
    assert(table(v@) =~= requests_spec(Interface::WlDataSource));
    v
}

fn wl_data_device_requests() -> (r: Vec<Message>)
    ensures
        table(r@) == requests_spec(Interface::WlDataDevice),
        lettered(r@),
{
    proof {
        reveal_strlit("");
        reveal_strlit("ooou");
        reveal_strlit("ou");
    }
    let mut v: Vec<Message> = Vec::new();
    v.push(message("start_drag", 1, "ooou"));
    v.push(message("set_selection", 1, "ou"));
    v.push(message("release", 2, ""));
    assert(table(v@) =~= requests_spec(Interface::WlDataDevice));
    v
}

fn wl_data_offer_requests() -> (r: Vec<Message>)
    ensures
        table(r@) == requests_spec(Interface::WlDataOffer),
        lettered(r@),
{
    proof {
        reveal_strlit("");
        reveal_strlit("sh");
        reveal_strlit("uS");
        reveal_strlit("uu");
    }
    let mut v: Vec<Message> = Vec::new();
    v.push(message("accept", 1, "uS"));
    v.push(message("receive", 1, "sh"));
    v.push(message("destroy", 1, ""));
    v.push(message("finish", 3, ""));
    v.push(message("set_actions", 3, "uu"));
    assert(table(v@) =~= requests_spec(Interface::WlDataOffer));
    v
}

fn ext_idle_notifier_v1_requests() -> (r: Vec<Message>)
    ensures
        table(r@) == requests_spec(Interface::ExtIdleNotifierV1),
        lettered(r@),
{
    proof {
        reveal_strlit("");
        reveal_strlit("nuo");
    }
    let mut v: Vec<Message> = Vec::new();
    v.push(message("destroy", 1, ""));
    v.push(message("get_idle_notification", 1, "nuo"));
    assert(table(v@) =~= requests_spec(Interface::ExtIdleNotifierV1));
    v
}

fn ext_idle_notification_v1_requests() -> (r: Vec<Message>)
    ensures
        table(r@) == requests_spec(Interface::ExtIdleNotificationV1),
        lettered(r@),
{
    proof {
        reveal_strlit("");
    }
    let mut v: Vec<Message> = Vec::new();
    v.push(message("destroy", 1, ""));
    assert(table(v@) =~= requests_spec(Interface::ExtIdleNotificationV1));
    v
}

fn zwp_idle_inhibit_manager_v1_requests() -> (r: Vec<Message>)
    ensures
        table(r@) == requests_spec(Interface::ZwpIdleInhibitManagerV1),
        lettered(r@),
{
    proof {
        reveal_strlit("");
        reveal_strlit("no");
    }
    let mut v: Vec<Message> = Vec::new();
    v.push(message("destroy", 1, ""));
    v.push(message("create_inhibitor", 1, "no"));
    assert(table(v@) =~= requests_spec(Interface::ZwpIdleInhibitManagerV1));
    v
}

fn zwp_idle_inhibitor_v1_requests() -> (r: Vec<Message>)
    ensures
        table(r@) == requests_spec(Interface::ZwpIdleInhibitorV1),
        lettered(r@),
{
    proof {
        reveal_strlit("");
    }
    let mut v: Vec<Message> = Vec::new();
    v.push(message("destroy", 1, ""));
    assert(table(v@) =~= requests_spec(Interface::ZwpIdleInhibitorV1));
    v
}

fn zwlr_foreign_toplevel_manager_v1_requests() -> (r: Vec<Message>)
    ensures
        table(r@) == requests_spec(Interface::ZwlrForeignToplevelManagerV1),
        lettered(r@),
{
    proof {
        reveal_strlit("");
    }
    let mut v: Vec<Message> = Vec::new();
    v.push(message("stop", 1, ""));
    assert(table(v@) =~= requests_spec(Interface::ZwlrForeignToplevelManagerV1));
    v
}

fn zwlr_foreign_toplevel_handle_v1_requests() -> (r: Vec<Message>)
    ensures
        table(r@) == requests_spec(Interface::ZwlrForeignToplevelHandleV1),
        lettered(r@),
{
    proof {
        reveal_strlit("");
        reveal_strlit("o");
        reveal_strlit("oiiii");
    }
    let mut v: Vec<Message> = Vec::new();
    v.push(message("set_maximized", 1, ""));
    v.push(message("unset_maximized", 1, ""));
    v.push(message("set_minimized", 1, ""));
    v.push(message("unset_minimized", 1, ""));
    v.push(message("activate", 1, "o"));
    v.push(message("close", 1, ""));
    v.push(message("set_rectangle", 1, "oiiii"));
    v.push(message("destroy", 1, ""));
    v.push(message("set_fullscreen", 2, "o"));
    v.push(message("unset_fullscreen", 2, ""));
    assert(table(v@) =~= requests_spec(Interface::ZwlrForeignToplevelHandleV1));
    v
}

fn zwlr_data_control_manager_v1_requests() -> (r: Vec<Message>)
    ensures
        table(r@) == requests_spec(Interface::ZwlrDataControlManagerV1),
        lettered(r@),
{
    proof {
        reveal_strlit("");
        reveal_strlit("n");
        reveal_strlit("no");
    }
    let mut v: Vec<Message> = Vec::new();
    v.push(message("create_data_source", 1, "n"));
    v.push(message("get_data_device", 1, "no"));
    v.push(message("destroy", 1, ""));
    assert(table(v@) =~= requests_spec(Interface::ZwlrDataControlManagerV1));
    v
}

fn zwlr_data_control_device_v1_requests() -> (r: Vec<Message>)
    ensures
        table(r@) == requests_spec(Interface::ZwlrDataControlDeviceV1),
        lettered(r@),
{
    proof {
        reveal_strlit("");
        reveal_strlit("o");
    }
    let mut v: Vec<Message> = Vec::new();
    v.push(message("set_selection", 1, "o"));
    v.push(message("destroy", 1, ""));
    v.push(message("set_primary_selection", 2, "o"));
    assert(table(v@) =~= requests_spec(Interface::ZwlrDataControlDeviceV1));
    v
}

fn zwlr_data_control_source_v1_requests() -> (r: Vec<Message>)
    ensures
        table(r@) == requests_spec(Interface::ZwlrDataControlSourceV1),
        lettered(r@),
{
    proof {
        reveal_strlit("");
        reveal_strlit("s");
    }
    let mut v: Vec<Message> = Vec::new();
    v.push(message("offer", 1, "s"));
    v.push(message("destroy", 1, ""));
    assert(table(v@) =~= requests_spec(Interface::ZwlrDataControlSourceV1));
    v
}

fn zwlr_data_control_offer_v1_requests() -> (r: Vec<Message>)
    ensures
        table(r@) == requests_spec(Interface::ZwlrDataControlOfferV1),
        lettered(r@),
{
    proof {
        reveal_strlit("");
        reveal_strlit("sh");
    }
    let mut v: Vec<Message> = Vec::new();
    v.push(message("receive", 1, "sh"));
    v.push(message("destroy", 1, ""));
    assert(table(v@) =~= requests_spec(Interface::ZwlrDataControlOfferV1));
    v
}

fn zwlr_screencopy_manager_v1_requests() -> (r: Vec<Message>)
    ensures
        table(r@) == requests_spec(Interface::ZwlrScreencopyManagerV1),
        lettered(r@),
{
    proof {
        reveal_strlit("");
        reveal_strlit("nio");
        reveal_strlit("nioiiii");
    }
    let mut v: Vec<Message> = Vec::new();
    v.push(message("capture_output", 1, "nio"));
    v.push(message("capture_output_region", 1, "nioiiii"));
    v.push(message("destroy", 1, ""));
    assert(table(v@) =~= requests_spec(Interface::ZwlrScreencopyManagerV1));
    v
}

fn zwlr_screencopy_frame_v1_requests() -> (r: Vec<Message>)
    ensures
        table(r@) == requests_spec(Interface::ZwlrScreencopyFrameV1),
        lettered(r@),
{
    proof {
        reveal_strlit("");
        reveal_strlit("o");
    }
    let mut v: Vec<Message> = Vec::new();
    v.push(message("copy", 1, "o"));
    v.push(message("destroy", 1, ""));
    v.push(message("copy_with_damage", 2, "o"));
    assert(table(v@) =~= requests_spec(Interface::ZwlrScreencopyFrameV1));
    v
}

fn ext_foreign_toplevel_list_v1_requests() -> (r: Vec<Message>)
    ensures
        table(r@) == requests_spec(Interface::ExtForeignToplevelListV1),
        lettered(r@),
{
    proof {
        reveal_strlit("");
    }
    let mut v: Vec<Message> = Vec::new();
    v.push(message("stop", 1, ""));
    v.push(message("destroy", 1, ""));
    assert(table(v@) =~= requests_spec(Interface::ExtForeignToplevelListV1));
    v
}

fn ext_foreign_toplevel_handle_v1_requests() -> (r: Vec<Message>)
    ensures
        table(r@) == requests_spec(Interface::ExtForeignToplevelHandleV1),
        lettered(r@),
{
    proof {
        reveal_strlit("");
    }
    let mut v: Vec<Message> = Vec::new();
    v.push(message("destroy", 1, ""));
    assert(table(v@) =~= requests_spec(Interface::ExtForeignToplevelHandleV1));
    v
}

fn ext_image_capture_source_v1_requests() -> (r: Vec<Message>)
    ensures
        table(r@) == requests_spec(Interface::ExtImageCaptureSourceV1),
        lettered(r@),
{
    proof {
        reveal_strlit("");
    }
    let mut v: Vec<Message> = Vec::new();
    v.push(message("destroy", 1, ""));
    assert(table(v@) =~= requests_spec(Interface::ExtImageCaptureSourceV1));
    v
}

fn ext_output_image_capture_source_manager_v1_requests() -> (r: Vec<Message>)
    ensures
        table(r@) == requests_spec(Interface::ExtOutputImageCaptureSourceManagerV1),
        lettered(r@),
{
    proof {
        reveal_strlit("");
        reveal_strlit("no");
    }
    let mut v: Vec<Message> = Vec::new();
    v.push(message("create_source", 1, "no"));
    v.push(message("destroy", 1, ""));
    assert(table(v@) =~= requests_spec(Interface::ExtOutputImageCaptureSourceManagerV1));
    v
}

fn ext_foreign_toplevel_image_capture_source_manager_v1_requests() -> (r: Vec<Message>)
    ensures
        table(r@) == requests_spec(Interface::ExtForeignToplevelImageCaptureSourceManagerV1),
        lettered(r@),
{
    proof {
        reveal_strlit("");
        reveal_strlit("no");
    }
    let mut v: Vec<Message> = Vec::new();
    v.push(message("create_source", 1, "no"));
    v.push(message("destroy", 1, ""));
    assert(table(v@) =~= requests_spec(Interface::ExtForeignToplevelImageCaptureSourceManagerV1));
    v
}

fn ext_image_copy_capture_manager_v1_requests() -> (r: Vec<Message>)
    ensures
        table(r@) == requests_spec(Interface::ExtImageCopyCaptureManagerV1),
        lettered(r@),
{
    proof {
        reveal_strlit("");
        reveal_strlit("noo");
        reveal_strlit("nou");
    }
    let mut v: Vec<Message> = Vec::new();
    v.push(message("create_session", 1, "nou"));
    v.push(message("create_pointer_cursor_session", 1, "noo"));
    v.push(message("destroy", 1, ""));
    assert(table(v@) =~= requests_spec(Interface::ExtImageCopyCaptureManagerV1));
    v
}

fn ext_image_copy_capture_session_v1_requests() -> (r: Vec<Message>)
    ensures
        table(r@) == requests_spec(Interface::ExtImageCopyCaptureSessionV1),
        lettered(r@),
{
    proof {
        reveal_strlit("");
        reveal_strlit("n");
    }
    let mut v: Vec<Message> = Vec::new();
    v.push(message("create_frame", 1, "n"));
    v.push(message("destroy", 1, ""));
    assert(table(v@) =~= requests_spec(Interface::ExtImageCopyCaptureSessionV1));
    v
}

fn ext_image_copy_capture_frame_v1_requests() -> (r: Vec<Message>)
    ensures
        table(r@) == requests_spec(Interface::ExtImageCopyCaptureFrameV1),
        lettered(r@),
{
    proof {
        reveal_strlit("");
        reveal_strlit("iiii");
        reveal_strlit("o");
    }
    let mut v: Vec<Message> = Vec::new();
    v.push(message("destroy", 1, ""));
    v.push(message("attach_buffer", 1, "o"));
    v.push(message("damage_buffer", 1, "iiii"));
    v.push(message("capture", 1, ""));
    assert(table(v@) =~= requests_spec(Interface::ExtImageCopyCaptureFrameV1));
    v
}

fn ext_image_copy_capture_cursor_session_v1_requests() -> (r: Vec<Message>)
    ensures
        table(r@) == requests_spec(Interface::ExtImageCopyCaptureCursorSessionV1),
        lettered(r@),
{
    proof {
        reveal_strlit("");
        reveal_strlit("n");
    }
    let mut v: Vec<Message> = Vec::new();
    v.push(message("destroy", 1, ""));
    v.push(message("get_capture_session", 1, "n"));
    assert(table(v@) =~= requests_spec(Interface::ExtImageCopyCaptureCursorSessionV1));
    v
}

fn zwp_linux_dmabuf_v1_requests() -> (r: Vec<Message>)
    ensures
        table(r@) == requests_spec(Interface::ZwpLinuxDmabufV1),
        lettered(r@),
{
    proof {
        reveal_strlit("");
        reveal_strlit("n");
        reveal_strlit("no");
    }
    let mut v: Vec<Message> = Vec::new();
    v.push(message("destroy", 1, ""));
    v.push(message("create_params", 1, "n"));
    v.push(message("get_default_feedback", 4, "n"));
    v.push(message("get_surface_feedback", 4, "no"));
    assert(table(v@) =~= requests_spec(Interface::ZwpLinuxDmabufV1));
    v
}

fn zwp_linux_dmabuf_feedback_v1_requests() -> (r: Vec<Message>)
    ensures
        table(r@) == requests_spec(Interface::ZwpLinuxDmabufFeedbackV1),
        lettered(r@),
{
    proof {
        reveal_strlit("");
    }
    let mut v: Vec<Message> = Vec::new();
    v.push(message("destroy", 1, ""));
    assert(table(v@) =~= requests_spec(Interface::ZwpLinuxDmabufFeedbackV1));
    v
}

fn zwp_linux_buffer_params_v1_requests() -> (r: Vec<Message>)
    ensures
        table(r@) == requests_spec(Interface::ZwpLinuxBufferParamsV1),
        lettered(r@),
{
    proof {
        reveal_strlit("");
        reveal_strlit("huuuuu");
        reveal_strlit("iiuu");
        reveal_strlit("niiuu");
    }
    let mut v: Vec<Message> = Vec::new();
    v.push(message("destroy", 1, ""));
    v.push(message("add", 1, "huuuuu"));
    v.push(message("create", 1, "iiuu"));
    v.push(message("create_immed", 2, "niiuu"));
    assert(table(v@) =~= requests_spec(Interface::ZwpLinuxBufferParamsV1));
    v
}

fn zwp_relative_pointer_manager_v1_requests() -> (r: Vec<Message>)
    ensures
        table(r@) == requests_spec(Interface::ZwpRelativePointerManagerV1),
        lettered(r@),
{
    proof {
        reveal_strlit("");
        reveal_strlit("no");
    }
    let mut v: Vec<Message> = Vec::new();
    v.push(message("destroy", 1, ""));
    v.push(message("get_relative_pointer", 1, "no"));
    assert(table(v@) =~= requests_spec(Interface::ZwpRelativePointerManagerV1));
    v
}

fn zwp_relative_pointer_v1_requests() -> (r: Vec<Message>)
    ensures
        table(r@) == requests_spec(Interface::ZwpRelativePointerV1),
        lettered(r@),
{
    proof {
        reveal_strlit("");
    }
    let mut v: Vec<Message> = Vec::new();
    v.push(message("destroy", 1, ""));
    assert(table(v@) =~= requests_spec(Interface::ZwpRelativePointerV1));
    v
}

fn zwp_pointer_constraints_v1_requests() -> (r: Vec<Message>)
    ensures
        table(r@) == requests_spec(Interface::ZwpPointerConstraintsV1),
        lettered(r@),
{
    proof {
        reveal_strlit("");
        reveal_strlit("nooou");
    }
    let mut v: Vec<Message> = Vec::new();
    v.push(message("destroy", 1, ""));
    v.push(message("lock_pointer", 1, "nooou"));
    v.push(message("confine_pointer", 1, "nooou"));
    assert(table(v@) =~= requests_spec(Interface::ZwpPointerConstraintsV1));
    v
}

fn zwp_locked_pointer_v1_requests() -> (r: Vec<Message>)
    ensures
        table(r@) == requests_spec(Interface::ZwpLockedPointerV1),
        lettered(r@),
{
    proof {
        reveal_strlit("");
        reveal_strlit("ff");
        reveal_strlit("o");
    }
    let mut v: Vec<Message> = Vec::new();
    v.push(message("destroy", 1, ""));
    v.push(message("set_cursor_position_hint", 1, "ff"));
    v.push(message("set_region", 1, "o"));
    assert(table(v@) =~= requests_spec(Interface::ZwpLockedPointerV1));
    v
}

fn zwp_confined_pointer_v1_requests() -> (r: Vec<Message>)
    ensures
        table(r@) == requests_spec(Interface::ZwpConfinedPointerV1),
        lettered(r@),
{
    proof {
        reveal_strlit("");
        reveal_strlit("o");
    }
    let mut v: Vec<Message> = Vec::new();
    v.push(message("destroy", 1, ""));
    v.push(message("set_region", 1, "o"));
    assert(table(v@) =~= requests_spec(Interface::ZwpConfinedPointerV1));
    v
}

fn wp_tearing_control_manager_v1_requests() -> (r: Vec<Message>)
    ensures
        table(r@) == requests_spec(Interface::WpTearingControlManagerV1),
        lettered(r@),
{
    proof {
        reveal_strlit("");
        reveal_strlit("no");
    }
    let mut v: Vec<Message> = Vec::new();
    v.push(message("destroy", 1, ""));
    v.push(message("get_tearing_control", 1, "no"));
    assert(table(v@) =~= requests_spec(Interface::WpTearingControlManagerV1));
    v
}

fn wp_tearing_control_v1_requests() -> (r: Vec<Message>)
    ensures
        table(r@) == requests_spec(Interface::WpTearingControlV1),
        lettered(r@),
{
    proof {
        reveal_strlit("");
        reveal_strlit("u");
    }
    let mut v: Vec<Message> = Vec::new();
    v.push(message("set_presentation_hint", 1, "u"));
    v.push(message("destroy", 1, ""));
    assert(table(v@) =~= requests_spec(Interface::WpTearingControlV1));
    v
}

fn zxdg_decoration_manager_v1_requests() -> (r: Vec<Message>)
    ensures
        table(r@) == requests_spec(Interface::ZxdgDecorationManagerV1),
        lettered(r@),
{
    proof {
        reveal_strlit("");
        reveal_strlit("no");
    }
    let mut v: Vec<Message> = Vec::new();
    v.push(message("destroy", 1, ""));
    v.push(message("get_toplevel_decoration", 1, "no"));
    assert(table(v@) =~= requests_spec(Interface::ZxdgDecorationManagerV1));
    v
}

fn zxdg_toplevel_decoration_v1_requests() -> (r: Vec<Message>)
    ensures
        table(r@) == requests_spec(Interface::ZxdgToplevelDecorationV1),
        lettered(r@),
{
    proof {
        reveal_strlit("");
        reveal_strlit("u");
    }
    let mut v: Vec<Message> = Vec::new();
    v.push(message("destroy", 1, ""));
    v.push(message("set_mode", 1, "u"));
    v.push(message("unset_mode", 1, ""));
    assert(table(v@) =~= requests_spec(Interface::ZxdgToplevelDecorationV1));
    v
}

fn zwp_primary_selection_device_manager_v1_requests() -> (r: Vec<Message>)
    ensures
        table(r@) == requests_spec(Interface::ZwpPrimarySelectionDeviceManagerV1),
        lettered(r@),
{
    proof {
        reveal_strlit("");
        reveal_strlit("n");
        reveal_strlit("no");
    }
    let mut v: Vec<Message> = Vec::new();
    v.push(message("create_source", 1, "n"));
    v.push(message("get_device", 1, "no"));
    v.push(message("destroy", 1, ""));
    assert(table(v@) =~= requests_spec(Interface::ZwpPrimarySelectionDeviceManagerV1));
    v
}

fn zwp_primary_selection_source_v1_requests() -> (r: Vec<Message>)
    ensures
        table(r@) == requests_spec(Interface::ZwpPrimarySelectionSourceV1),
        lettered(r@),
{
    proof {
        reveal_strlit("");
        reveal_strlit("s");
    }
    let mut v: Vec<Message> = Vec::new();
    v.push(message("offer", 1, "s"));
    v.push(message("destroy", 1, ""));
    assert(table(v@) =~= requests_spec(Interface::ZwpPrimarySelectionSourceV1));
    v
}

fn zwp_primary_selection_device_v1_requests() -> (r: Vec<Message>)
    ensures
        table(r@) == requests_spec(Interface::ZwpPrimarySelectionDeviceV1),
        lettered(r@),
{
    proof {
        reveal_strlit("");
        reveal_strlit("ou");
    }
    let mut v: Vec<Message> = Vec::new();
    v.push(message("set_selection", 1, "ou"));
    v.push(message("destroy", 1, ""));
    assert(table(v@) =~= requests_spec(Interface::ZwpPrimarySelectionDeviceV1));
    v
}

fn zwp_primary_selection_offer_v1_requests() -> (r: Vec<Message>)
    ensures
        table(r@) == requests_spec(Interface::ZwpPrimarySelectionOfferV1),
        lettered(r@),
{
    proof {
        reveal_strlit("");
        reveal_strlit("sh");
    }
    let mut v: Vec<Message> = Vec::new();
    v.push(message("receive", 1, "sh"));
    v.push(message("destroy", 1, ""));
    assert(table(v@) =~= requests_spec(Interface::ZwpPrimarySelectionOfferV1));
    v
}

fn xwayland_shell_v1_requests() -> (r: Vec<Message>)
    ensures
        table(r@) == requests_spec(Interface::XwaylandShellV1),
        lettered(r@),
{
    proof {
        reveal_strlit("");
        reveal_strlit("no");
    }
    let mut v: Vec<Message> = Vec::new();
    v.push(message("destroy", 1, ""));
    v.push(message("get_xwayland_surface", 1, "no"));
    assert(table(v@) =~= requests_spec(Interface::XwaylandShellV1));
    v
}

fn xwayland_surface_v1_requests() -> (r: Vec<Message>)
    ensures
        table(r@) == requests_spec(Interface::XwaylandSurfaceV1),
        lettered(r@),
{
    proof {
        reveal_strlit("");
        reveal_strlit("uu");
    }
    let mut v: Vec<Message> = Vec::new();
    v.push(message("set_serial", 1, "uu"));
    v.push(message("destroy", 1, ""));
    assert(table(v@) =~= requests_spec(Interface::XwaylandSurfaceV1));
    v
}

fn zwlr_layer_shell_v1_requests() -> (r: Vec<Message>)
    ensures
        table(r@) == requests_spec(Interface::ZwlrLayerShellV1),
        lettered(r@),
{
    proof {
        reveal_strlit("");
        reveal_strlit("noous");
    }
    let mut v: Vec<Message> = Vec::new();
    v.push(message("get_layer_surface", 1, "noous"));
    v.push(message("destroy", 3, ""));
    assert(table(v@) =~= requests_spec(Interface::ZwlrLayerShellV1));
    v
}

fn zwlr_layer_surface_v1_requests() -> (r: Vec<Message>)
    ensures
        table(r@) == requests_spec(Interface::ZwlrLayerSurfaceV1),
        lettered(r@),
{
    proof {
        reveal_strlit("");
        reveal_strlit("i");
        reveal_strlit("iiii");
        reveal_strlit("o");
        reveal_strlit("u");
        reveal_strlit("uu");
    }
    let mut v: Vec<Message> = Vec::new();
    v.push(message("set_size", 1, "uu"));
    v.push(message("set_anchor", 1, "u"));
    v.push(message("set_exclusive_zone", 1, "i"));
    v.push(message("set_margin", 1, "iiii"));
    v.push(message("set_keyboard_interactivity", 1, "u"));
    v.push(message("get_popup", 1, "o"));
    v.push(message("ack_configure", 1, "u"));
    v.push(message("destroy", 1, ""));
    v.push(message("set_layer", 2, "u"));
    v.push(message("set_exclusive_edge", 5, "u"));
    assert(table(v@) =~= requests_spec(Interface::ZwlrLayerSurfaceV1));
    v
}

fn ext_session_lock_manager_v1_requests() -> (r: Vec<Message>)
    ensures
        table(r@) == requests_spec(Interface::ExtSessionLockManagerV1),
        lettered(r@),
{
    proof {
        reveal_strlit("");
        reveal_strlit("n");
    }
    let mut v: Vec<Message> = Vec::new();
    v.push(message("destroy", 1, ""));
    v.push(message("lock", 1, "n"));
    assert(table(v@) =~= requests_spec(Interface::ExtSessionLockManagerV1));
    v
}

fn ext_session_lock_v1_requests() -> (r: Vec<Message>)
    ensures
        table(r@) == requests_spec(Interface::ExtSessionLockV1),
        lettered(r@),
{
    proof {
        reveal_strlit("");
        reveal_strlit("noo");
    }
    let mut v: Vec<Message> = Vec::new();
    v.push(message("destroy", 1, ""));
    v.push(message("get_lock_surface", 1, "noo"));
    v.push(message("unlock_and_destroy", 1, ""));
    assert(table(v@) =~= requests_spec(Interface::ExtSessionLockV1));
    v
}

fn ext_session_lock_surface_v1_requests() -> (r: Vec<Message>)
    ensures
        table(r@) == requests_spec(Interface::ExtSessionLockSurfaceV1),
        lettered(r@),
{
    proof {
        reveal_strlit("");
        reveal_strlit("u");
    }
    let mut v: Vec<Message> = Vec::new();
    v.push(message("destroy", 1, ""));
    v.push(message("ack_configure", 1, "u"));
    assert(table(v@) =~= requests_spec(Interface::ExtSessionLockSurfaceV1));
    v
}

fn zxdg_output_manager_v1_requests() -> (r: Vec<Message>)
    ensures
        table(r@) == requests_spec(Interface::ZxdgOutputManagerV1),
        lettered(r@),
{
    proof {
        reveal_strlit("");
        reveal_strlit("no");
    }
    let mut v: Vec<Message> = Vec::new();
    v.push(message("destroy", 1, ""));
    v.push(message("get_xdg_output", 1, "no"));
    assert(table(v@) =~= requests_spec(Interface::ZxdgOutputManagerV1));
    v
}

fn zxdg_output_v1_requests() -> (r: Vec<Message>)
    ensures
        table(r@) == requests_spec(Interface::ZxdgOutputV1),
        lettered(r@),
{
    proof {
        reveal_strlit("");
    }
    let mut v: Vec<Message> = Vec::new();
    v.push(message("destroy", 1, ""));
    assert(table(v@) =~= requests_spec(Interface::ZxdgOutputV1));
    v
}

fn wl_output_requests() -> (r: Vec<Message>)
    ensures
        table(r@) == requests_spec(Interface::WlOutput),
        lettered(r@),
{
    proof {
        reveal_strlit("");
    }
    let mut v: Vec<Message> = Vec::new();
    v.push(message("release", 3, ""));
    assert(table(v@) =~= requests_spec(Interface::WlOutput));
    v
}

fn xdg_activation_v1_requests() -> (r: Vec<Message>)
    ensures
        table(r@) == requests_spec(Interface::XdgActivationV1),
        lettered(r@),
{
    proof {
        reveal_strlit("");
        reveal_strlit("n");
        reveal_strlit("so");
    }
    let mut v: Vec<Message> = Vec::new();
    v.push(message("destroy", 1, ""));
    v.push(message("get_activation_token", 1, "n"));
    v.push(message("activate", 1, "so"));
    assert(table(v@) =~= requests_spec(Interface::XdgActivationV1));
    v
}

fn xdg_activation_token_v1_requests() -> (r: Vec<Message>)
    ensures
        table(r@) == requests_spec(Interface::XdgActivationTokenV1),
        lettered(r@),
{
    proof {
        reveal_strlit("");
        reveal_strlit("o");
        reveal_strlit("s");
        reveal_strlit("uo");
    }
    let mut v: Vec<Message> = Vec::new();
    v.push(message("set_serial", 1, "uo"));
    v.push(message("set_app_id", 1, "s"));
    v.push(message("set_surface", 1, "o"));
    v.push(message("commit", 1, ""));
    v.push(message("destroy", 1, ""));
    assert(table(v@) =~= requests_spec(Interface::XdgActivationTokenV1));
    v
}

/// The requests of an interface, by opcode.
pub fn requests(i: Interface) -> (r: Vec<Message>)
    ensures
        table(r@) == requests_spec(i),
        lettered(r@),
{
    match i {
        Interface::WlDisplay => wl_display_requests(),
        Interface::WlRegistry => wl_registry_requests(),
        Interface::WlCompositor => wl_compositor_requests(),
        Interface::WlSurface => wl_surface_requests(),
        Interface::WlRegion => wl_region_requests(),
        Interface::WlSubcompositor => wl_subcompositor_requests(),
        Interface::WlSubsurface => wl_subsurface_requests(),
        Interface::WlShm => wl_shm_requests(),
        Interface::WlShmPool => wl_shm_pool_requests(),
        Interface::WlBuffer => wl_buffer_requests(),
        Interface::WlSeat => wl_seat_requests(),
        Interface::WlPointer => wl_pointer_requests(),
        Interface::WlKeyboard => wl_keyboard_requests(),
        Interface::XdgWmBase => xdg_wm_base_requests(),
        Interface::XdgPositioner => xdg_positioner_requests(),
        Interface::XdgSurface => xdg_surface_requests(),
        Interface::XdgToplevel => xdg_toplevel_requests(),
        Interface::XdgPopup => xdg_popup_requests(),
        Interface::WlDataDeviceManager => wl_data_device_manager_requests(),
        Interface::WlDataSource => wl_data_source_requests(),
        Interface::WlDataDevice => wl_data_device_requests(),
        Interface::WlDataOffer => wl_data_offer_requests(),
        Interface::ExtIdleNotifierV1 => ext_idle_notifier_v1_requests(),
        Interface::ExtIdleNotificationV1 => ext_idle_notification_v1_requests(),
        Interface::ZwpIdleInhibitManagerV1 => zwp_idle_inhibit_manager_v1_requests(),
        Interface::ZwpIdleInhibitorV1 => zwp_idle_inhibitor_v1_requests(),
        Interface::ZwlrForeignToplevelManagerV1 => zwlr_foreign_toplevel_manager_v1_requests(),
        Interface::ZwlrForeignToplevelHandleV1 => zwlr_foreign_toplevel_handle_v1_requests(),
        Interface::ZwlrDataControlManagerV1 => zwlr_data_control_manager_v1_requests(),
        Interface::ZwlrDataControlDeviceV1 => zwlr_data_control_device_v1_requests(),
        Interface::ZwlrDataControlSourceV1 => zwlr_data_control_source_v1_requests(),
        Interface::ZwlrDataControlOfferV1 => zwlr_data_control_offer_v1_requests(),
        Interface::ZwlrScreencopyManagerV1 => zwlr_screencopy_manager_v1_requests(),
        Interface::ZwlrScreencopyFrameV1 => zwlr_screencopy_frame_v1_requests(),
        Interface::ExtForeignToplevelListV1 => ext_foreign_toplevel_list_v1_requests(),
        Interface::ExtForeignToplevelHandleV1 => ext_foreign_toplevel_handle_v1_requests(),
        Interface::ExtImageCaptureSourceV1 => ext_image_capture_source_v1_requests(),
        Interface::ExtOutputImageCaptureSourceManagerV1 => ext_output_image_capture_source_manager_v1_requests(),
        Interface::ExtForeignToplevelImageCaptureSourceManagerV1 => ext_foreign_toplevel_image_capture_source_manager_v1_requests(),
        Interface::ExtImageCopyCaptureManagerV1 => ext_image_copy_capture_manager_v1_requests(),
        Interface::ExtImageCopyCaptureSessionV1 => ext_image_copy_capture_session_v1_requests(),
        Interface::ExtImageCopyCaptureFrameV1 => ext_image_copy_capture_frame_v1_requests(),
        Interface::ExtImageCopyCaptureCursorSessionV1 => ext_image_copy_capture_cursor_session_v1_requests(),
        Interface::ZwpLinuxDmabufV1 => zwp_linux_dmabuf_v1_requests(),
        Interface::ZwpLinuxDmabufFeedbackV1 => zwp_linux_dmabuf_feedback_v1_requests(),
        Interface::ZwpLinuxBufferParamsV1 => zwp_linux_buffer_params_v1_requests(),
        Interface::ZwpRelativePointerManagerV1 => zwp_relative_pointer_manager_v1_requests(),
        Interface::ZwpRelativePointerV1 => zwp_relative_pointer_v1_requests(),
        Interface::ZwpPointerConstraintsV1 => zwp_pointer_constraints_v1_requests(),
        Interface::ZwpLockedPointerV1 => zwp_locked_pointer_v1_requests(),
        Interface::ZwpConfinedPointerV1 => zwp_confined_pointer_v1_requests(),
        Interface::WpTearingControlManagerV1 => wp_tearing_control_manager_v1_requests(),
        Interface::WpTearingControlV1 => wp_tearing_control_v1_requests(),
        Interface::ZxdgDecorationManagerV1 => zxdg_decoration_manager_v1_requests(),
        Interface::ZxdgToplevelDecorationV1 => zxdg_toplevel_decoration_v1_requests(),
        Interface::ZwpPrimarySelectionDeviceManagerV1 => zwp_primary_selection_device_manager_v1_requests(),
        Interface::ZwpPrimarySelectionSourceV1 => zwp_primary_selection_source_v1_requests(),
        Interface::ZwpPrimarySelectionDeviceV1 => zwp_primary_selection_device_v1_requests(),
        Interface::ZwpPrimarySelectionOfferV1 => zwp_primary_selection_offer_v1_requests(),
        Interface::XwaylandShellV1 => xwayland_shell_v1_requests(),
        Interface::XwaylandSurfaceV1 => xwayland_surface_v1_requests(),
        Interface::ZwlrLayerShellV1 => zwlr_layer_shell_v1_requests(),
        Interface::ZwlrLayerSurfaceV1 => zwlr_layer_surface_v1_requests(),
        Interface::ExtSessionLockManagerV1 => ext_session_lock_manager_v1_requests(),
        Interface::ExtSessionLockV1 => ext_session_lock_v1_requests(),
        Interface::ExtSessionLockSurfaceV1 => ext_session_lock_surface_v1_requests(),
        Interface::ZxdgOutputManagerV1 => zxdg_output_manager_v1_requests(),
        Interface::ZxdgOutputV1 => zxdg_output_v1_requests(),
        Interface::WlOutput => wl_output_requests(),
        Interface::XdgActivationV1 => xdg_activation_v1_requests(),
        Interface::XdgActivationTokenV1 => xdg_activation_token_v1_requests(),
        Interface::WlCallback => {
            let v: Vec<Message> = Vec::new();
            assert(table(v@) =~= requests_spec(i));
            v
        },
    }
}

fn wl_display_events() -> (r: Vec<Message>)
    ensures
        table(r@) == events_spec(Interface::WlDisplay),
        lettered(r@),
{
    proof {
        reveal_strlit("ous");
        reveal_strlit("u");
    }
    let mut v: Vec<Message> = Vec::new();
    v.push(message("error", 1, "ous"));
    v.push(message("delete_id", 1, "u"));
    assert(table(v@) =~= events_spec(Interface::WlDisplay));
    v
}

fn wl_registry_events() -> (r: Vec<Message>)
    ensures
        table(r@) == events_spec(Interface::WlRegistry),
        lettered(r@),
{
    proof {
        reveal_strlit("u");
        reveal_strlit("usu");
    }
    let mut v: Vec<Message> = Vec::new();
    v.push(message("global", 1, "usu"));
    v.push(message("global_remove", 1, "u"));
    assert(table(v@) =~= events_spec(Interface::WlRegistry));
    v
}

fn wl_callback_events() -> (r: Vec<Message>)
    ensures
        table(r@) == events_spec(Interface::WlCallback),
        lettered(r@),
{
    proof {
        reveal_strlit("u");
    }
    let mut v: Vec<Message> = Vec::new();
    v.push(message("done", 1, "u"));
    assert(table(v@) =~= events_spec(Interface::WlCallback));
    v
}

fn wl_surface_events() -> (r: Vec<Message>)
    ensures
        table(r@) == events_spec(Interface::WlSurface),
        lettered(r@),
{
    proof {
        reveal_strlit("i");
        reveal_strlit("o");
        reveal_strlit("u");
    }
    let mut v: Vec<Message> = Vec::new();
    v.push(message("enter", 1, "o"));
    v.push(message("leave", 1, "o"));
    v.push(message("preferred_buffer_scale", 6, "i"));
    v.push(message("preferred_buffer_transform", 6, "u"));
    assert(table(v@) =~= events_spec(Interface::WlSurface));
    v
}

fn wl_shm_events() -> (r: Vec<Message>)
    ensures
        table(r@) == events_spec(Interface::WlShm),
        lettered(r@),
{
    proof {
        reveal_strlit("u");
    }
    let mut v: Vec<Message> = Vec::new();
    v.push(message("format", 1, "u"));
    assert(table(v@) =~= events_spec(Interface::WlShm));
    v
}

fn wl_buffer_events() -> (r: Vec<Message>)
    ensures
        table(r@) == events_spec(Interface::WlBuffer),
        lettered(r@),
{
    proof {
        reveal_strlit("");
    }
    let mut v: Vec<Message> = Vec::new();
    v.push(message("release", 1, ""));
    assert(table(v@) =~= events_spec(Interface::WlBuffer));
    v
}

fn wl_seat_events() -> (r: Vec<Message>)
    ensures
        table(r@) == events_spec(Interface::WlSeat),
        lettered(r@),
{
    proof {
        reveal_strlit("s");
        reveal_strlit("u");
    }
    let mut v: Vec<Message> = Vec::new();
    v.push(message("capabilities", 1, "u"));
    v.push(message("name", 2, "s"));
    assert(table(v@) =~= events_spec(Interface::WlSeat));
    v
}

fn wl_pointer_events() -> (r: Vec<Message>)
    ensures
        table(r@) == events_spec(Interface::WlPointer),
        lettered(r@),
{
    proof {
        reveal_strlit("");
        reveal_strlit("u");
        reveal_strlit("uff");
        reveal_strlit("ui");
        reveal_strlit("uo");
        reveal_strlit("uoff");
        reveal_strlit("uu");
        reveal_strlit("uuf");
        reveal_strlit("uuuu");
    }
    let mut v: Vec<Message> = Vec::new();
    v.push(message("enter", 1, "uoff"));
    v.push(message("leave", 1, "uo"));
    v.push(message("motion", 1, "uff"));
    v.push(message("button", 1, "uuuu"));
    v.push(message("axis", 1, "uuf"));
    v.push(message("frame", 5, ""));
    v.push(message("axis_source", 5, "u"));
    v.push(message("axis_stop", 5, "uu"));
    v.push(message("axis_discrete", 5, "ui"));
    v.push(message("axis_value120", 8, "ui"));
    v.push(message("axis_relative_direction", 9, "uu"));
    assert(table(v@) =~= events_spec(Interface::WlPointer));
    v
}

fn wl_keyboard_events() -> (r: Vec<Message>)
    ensures
        table(r@) == events_spec(Interface::WlKeyboard),
        lettered(r@),
{
    proof {
        reveal_strlit("ii");
        reveal_strlit("uhu");
        reveal_strlit("uo");
        reveal_strlit("uoa");
        reveal_strlit("uuuu");
        reveal_strlit("uuuuu");
    }
    let mut v: Vec<Message> = Vec::new();
    v.push(message("keymap", 1, "uhu"));
    v.push(message("enter", 1, "uoa"));
    v.push(message("leave", 1, "uo"));
    v.push(message("key", 1, "uuuu"));
    v.push(message("modifiers", 1, "uuuuu"));
    v.push(message("repeat_info", 4, "ii"));
    assert(table(v@) =~= events_spec(Interface::WlKeyboard));
    v
}

fn xdg_wm_base_events() -> (r: Vec<Message>)
    ensures
        table(r@) == events_spec(Interface::XdgWmBase),
        lettered(r@),
{
    proof {
        reveal_strlit("u");
    }
    let mut v: Vec<Message> = Vec::new();
    v.push(message("ping", 1, "u"));
    assert(table(v@) =~= events_spec(Interface::XdgWmBase));
    v
}

fn xdg_surface_events() -> (r: Vec<Message>)
    ensures
        table(r@) == events_spec(Interface::XdgSurface),
        lettered(r@),
{
    proof {
        reveal_strlit("u");
    }
    let mut v: Vec<Message> = Vec::new();
    v.push(message("configure", 1, "u"));
    assert(table(v@) =~= events_spec(Interface::XdgSurface));
    v
}

fn xdg_toplevel_events() -> (r: Vec<Message>)
    ensures
        table(r@) == events_spec(Interface::XdgToplevel),
        lettered(r@),
{
    proof {
        reveal_strlit("");
        reveal_strlit("a");
        reveal_strlit("ii");
        reveal_strlit("iia");
    }
    let mut v: Vec<Message> = Vec::new();
    v.push(message("configure", 1, "iia"));
    v.push(message("close", 1, ""));
    v.push(message("configure_bounds", 4, "ii"));
    v.push(message("wm_capabilities", 5, "a"));
    assert(table(v@) =~= events_spec(Interface::XdgToplevel));
    v
}

fn xdg_popup_events() -> (r: Vec<Message>)
    ensures
        table(r@) == events_spec(Interface::XdgPopup),
        lettered(r@),
{
    proof {
        reveal_strlit("");
        reveal_strlit("iiii");
        reveal_strlit("u");
    }
    let mut v: Vec<Message> = Vec::new();
    v.push(message("configure", 1, "iiii"));
    v.push(message("popup_done", 1, ""));
    v.push(message("repositioned", 3, "u"));
    assert(table(v@) =~= events_spec(Interface::XdgPopup));
    v
}

fn wl_data_source_events() -> (r: Vec<Message>)
    ensures
        table(r@) == events_spec(Interface::WlDataSource),
        lettered(r@),
{
    proof {
        reveal_strlit("");
        reveal_strlit("S");
        reveal_strlit("sh");
        reveal_strlit("u");
    }
    let mut v: Vec<Message> = Vec::new();
    v.push(message("target", 1, "S"));
    v.push(message("send", 1, "sh"));
    v.push(message("cancelled", 1, ""));
    v.push(message("dnd_drop_performed", 3, ""));
    v.push(message("dnd_finished", 3, ""));
    v.push(message("action", 3, "u"));
    assert(table(v@) =~= events_spec(Interface::WlDataSource));
    v
}

fn wl_data_device_events() -> (r: Vec<Message>)
    ensures
        table(r@) == events_spec(Interface::WlDataDevice),
        lettered(r@),
{
    proof {
        reveal_strlit("");
        reveal_strlit("o");
        reveal_strlit("uff");
        reveal_strlit("uoffo");
    }
    let mut v: Vec<Message> = Vec::new();
    v.push(message("data_offer", 1, "o"));
    v.push(message("enter", 1, "uoffo"));
    v.push(message("leave", 1, ""));
    v.push(message("motion", 1, "uff"));
    v.push(message("drop", 1, ""));
    v.push(message("selection", 1, "o"));
    assert(table(v@) =~= events_spec(Interface::WlDataDevice));
    v
}

fn wl_data_offer_events() -> (r: Vec<Message>)
    ensures
        table(r@) == events_spec(Interface::WlDataOffer),
        lettered(r@),
{
    proof {
        reveal_strlit("s");
        reveal_strlit("u");
    }
    let mut v: Vec<Message> = Vec::new();
    v.push(message("offer", 1, "s"));
    v.push(message("source_actions", 3, "u"));
    v.push(message("action", 3, "u"));
    assert(table(v@) =~= events_spec(Interface::WlDataOffer));
    v
}

fn ext_idle_notification_v1_events() -> (r: Vec<Message>)
    ensures
        table(r@) == events_spec(Interface::ExtIdleNotificationV1),
        lettered(r@),
{
    proof {
        reveal_strlit("");
    }
    let mut v: Vec<Message> = Vec::new();
    v.push(message("idled", 1, ""));
    v.push(message("resumed", 1, ""));
    assert(table(v@) =~= events_spec(Interface::ExtIdleNotificationV1));
    v
}

fn zwlr_foreign_toplevel_manager_v1_events() -> (r: Vec<Message>)
    ensures
        table(r@) == events_spec(Interface::ZwlrForeignToplevelManagerV1),
        lettered(r@),
{
    proof {
        reveal_strlit("");
        reveal_strlit("n");
    }
    let mut v: Vec<Message> = Vec::new();
    v.push(message("toplevel", 1, "n"));
    v.push(message("finished", 1, ""));
    assert(table(v@) =~= events_spec(Interface::ZwlrForeignToplevelManagerV1));
    v
}

fn zwlr_foreign_toplevel_handle_v1_events() -> (r: Vec<Message>)
    ensures
        table(r@) == events_spec(Interface::ZwlrForeignToplevelHandleV1),
        lettered(r@),
{
    proof {
        reveal_strlit("");
        reveal_strlit("a");
        reveal_strlit("o");
        reveal_strlit("s");
    }
    let mut v: Vec<Message> = Vec::new();
    v.push(message("title", 1, "s"));
    v.push(message("app_id", 1, "s"));
    v.push(message("output_enter", 1, "o"));
    v.push(message("output_leave", 1, "o"));
    v.push(message("state", 1, "a"));
    v.push(message("done", 1, ""));
    v.push(message("closed", 1, ""));
    v.push(message("parent", 3, "o"));
    assert(table(v@) =~= events_spec(Interface::ZwlrForeignToplevelHandleV1));
    v
}

fn zwlr_data_control_device_v1_events() -> (r: Vec<Message>)
    ensures
        table(r@) == events_spec(Interface::ZwlrDataControlDeviceV1),
        lettered(r@),
{
    proof {
        reveal_strlit("");
        reveal_strlit("n");
        reveal_strlit("o");
    }
    let mut v: Vec<Message> = Vec::new();
    v.push(message("data_offer", 1, "n"));
    v.push(message("selection", 1, "o"));
    v.push(message("finished", 1, ""));
    v.push(message("primary_selection", 2, "o"));
    assert(table(v@) =~= events_spec(Interface::ZwlrDataControlDeviceV1));
    v
}

fn zwlr_data_control_source_v1_events() -> (r: Vec<Message>)
    ensures
        table(r@) == events_spec(Interface::ZwlrDataControlSourceV1),
        lettered(r@),
{
    proof {
        reveal_strlit("");
        reveal_strlit("sh");
    }
    let mut v: Vec<Message> = Vec::new();
    v.push(message("send", 1, "sh"));
    v.push(message("cancelled", 1, ""));
    assert(table(v@) =~= events_spec(Interface::ZwlrDataControlSourceV1));
    v
}

fn zwlr_data_control_offer_v1_events() -> (r: Vec<Message>)
    ensures
        table(r@) == events_spec(Interface::ZwlrDataControlOfferV1),
        lettered(r@),
{
    proof {
        reveal_strlit("s");
    }
    let mut v: Vec<Message> = Vec::new();
    v.push(message("offer", 1, "s"));
    assert(table(v@) =~= events_spec(Interface::ZwlrDataControlOfferV1));
    v
}

fn zwlr_screencopy_frame_v1_events() -> (r: Vec<Message>)
    ensures
        table(r@) == events_spec(Interface::ZwlrScreencopyFrameV1),
        lettered(r@),
{
    proof {
        reveal_strlit("");
        reveal_strlit("u");
        reveal_strlit("uuu");
        reveal_strlit("uuuu");
    }
    let mut v: Vec<Message> = Vec::new();
    v.push(message("buffer", 1, "uuuu"));
    v.push(message("flags", 1, "u"));
    v.push(message("ready", 1, "uuu"));
    v.push(message("failed", 1, ""));
    v.push(message("damage", 2, "uuuu"));
    v.push(message("linux_dmabuf", 3, "uuu"));
    v.push(message("buffer_done", 3, ""));
    assert(table(v@) =~= events_spec(Interface::ZwlrScreencopyFrameV1));
    v
}

fn ext_foreign_toplevel_list_v1_events() -> (r: Vec<Message>)
    ensures
        table(r@) == events_spec(Interface::ExtForeignToplevelListV1),
        lettered(r@),
{
    proof {
        reveal_strlit("");
        reveal_strlit("n");
    }
    let mut v: Vec<Message> = Vec::new();
    v.push(message("toplevel", 1, "n"));
    v.push(message("finished", 1, ""));
    assert(table(v@) =~= events_spec(Interface::ExtForeignToplevelListV1));
    v
}

fn ext_foreign_toplevel_handle_v1_events() -> (r: Vec<Message>)
    ensures
        table(r@) == events_spec(Interface::ExtForeignToplevelHandleV1),
        lettered(r@),
{
    proof {
        reveal_strlit("");
        reveal_strlit("s");
    }
    let mut v: Vec<Message> = Vec::new();
    v.push(message("closed", 1, ""));
    v.push(message("done", 1, ""));
    v.push(message("title", 1, "s"));
    v.push(message("app_id", 1, "s"));
    v.push(message("identifier", 1, "s"));
    assert(table(v@) =~= events_spec(Interface::ExtForeignToplevelHandleV1));
    v
}

fn ext_image_copy_capture_session_v1_events() -> (r: Vec<Message>)
    ensures
        table(r@) == events_spec(Interface::ExtImageCopyCaptureSessionV1),
        lettered(r@),
{
    proof {
        reveal_strlit("");
        reveal_strlit("a");
        reveal_strlit("u");
        reveal_strlit("ua");
        reveal_strlit("uu");
    }
    let mut v: Vec<Message> = Vec::new();
    v.push(message("buffer_size", 1, "uu"));
    v.push(message("shm_format", 1, "u"));
    v.push(message("dmabuf_device", 1, "a"));
    v.push(message("dmabuf_format", 1, "ua"));
    v.push(message("done", 1, ""));
    v.push(message("stopped", 1, ""));
    assert(table(v@) =~= events_spec(Interface::ExtImageCopyCaptureSessionV1));
    v
}

fn ext_image_copy_capture_frame_v1_events() -> (r: Vec<Message>)
    ensures
        table(r@) == events_spec(Interface::ExtImageCopyCaptureFrameV1),
        lettered(r@),
{
    proof {
        reveal_strlit("");
        reveal_strlit("iiii");
        reveal_strlit("u");
        reveal_strlit("uuu");
    }
    let mut v: Vec<Message> = Vec::new();
    v.push(message("transform", 1, "u"));
    v.push(message("damage", 1, "iiii"));
    v.push(message("presentation_time", 1, "uuu"));
    v.push(message("ready", 1, ""));
    v.push(message("failed", 1, "u"));
    assert(table(v@) =~= events_spec(Interface::ExtImageCopyCaptureFrameV1));
    v
}

fn ext_image_copy_capture_cursor_session_v1_events() -> (r: Vec<Message>)
    ensures
        table(r@) == events_spec(Interface::ExtImageCopyCaptureCursorSessionV1),
        lettered(r@),
{
    proof {
        reveal_strlit("");
        reveal_strlit("ii");
    }
    let mut v: Vec<Message> = Vec::new();
    v.push(message("enter", 1, ""));
    v.push(message("leave", 1, ""));
    v.push(message("position", 1, "ii"));
    v.push(message("hotspot", 1, "ii"));
    assert(table(v@) =~= events_spec(Interface::ExtImageCopyCaptureCursorSessionV1));
    v
}

fn zwp_linux_dmabuf_v1_events() -> (r: Vec<Message>)
    ensures
        table(r@) == events_spec(Interface::ZwpLinuxDmabufV1),
        lettered(r@),
{
    proof {
        reveal_strlit("u");
        reveal_strlit("uuu");
    }
    let mut v: Vec<Message> = Vec::new();
    v.push(message("format", 1, "u"));
    v.push(message("modifier", 3, "uuu"));
    assert(table(v@) =~= events_spec(Interface::ZwpLinuxDmabufV1));
    v
}

fn zwp_linux_dmabuf_feedback_v1_events() -> (r: Vec<Message>)
    ensures
        table(r@) == events_spec(Interface::ZwpLinuxDmabufFeedbackV1),
        lettered(r@),
{
    proof {
        reveal_strlit("");
        reveal_strlit("a");
        reveal_strlit("hu");
        reveal_strlit("u");
    }
    let mut v: Vec<Message> = Vec::new();
    v.push(message("done", 1, ""));
    v.push(message("format_table", 1, "hu"));
    v.push(message("main_device", 1, "a"));
    v.push(message("tranche_done", 1, ""));
    v.push(message("tranche_target_device", 1, "a"));
    v.push(message("tranche_formats", 1, "a"));
    v.push(message("tranche_flags", 1, "u"));
    assert(table(v@) =~= events_spec(Interface::ZwpLinuxDmabufFeedbackV1));
    v
}

fn zwp_linux_buffer_params_v1_events() -> (r: Vec<Message>)
    ensures
        table(r@) == events_spec(Interface::ZwpLinuxBufferParamsV1),
        lettered(r@),
{
    proof {
        reveal_strlit("");
        reveal_strlit("n");
    }
    let mut v: Vec<Message> = Vec::new();
    v.push(message("created", 1, "n"));
    v.push(message("failed", 1, ""));
    assert(table(v@) =~= events_spec(Interface::ZwpLinuxBufferParamsV1));
    v
}

fn zwp_relative_pointer_v1_events() -> (r: Vec<Message>)
    ensures
        table(r@) == events_spec(Interface::ZwpRelativePointerV1),
        lettered(r@),
{
    proof {
        reveal_strlit("uuffff");
    }
    let mut v: Vec<Message> = Vec::new();
    v.push(message("relative_motion", 1, "uuffff"));
    assert(table(v@) =~= events_spec(Interface::ZwpRelativePointerV1));
    v
}

fn zwp_locked_pointer_v1_events() -> (r: Vec<Message>)
    ensures
        table(r@) == events_spec(Interface::ZwpLockedPointerV1),
        lettered(r@),
{
    proof {
        reveal_strlit("");
    }
    let mut v: Vec<Message> = Vec::new();
    v.push(message("locked", 1, ""));
    v.push(message("unlocked", 1, ""));
    assert(table(v@) =~= events_spec(Interface::ZwpLockedPointerV1));
    v
}

fn zwp_confined_pointer_v1_events() -> (r: Vec<Message>)
    ensures
        table(r@) == events_spec(Interface::ZwpConfinedPointerV1),
        lettered(r@),
{
    proof {
        reveal_strlit("");
    }
    let mut v: Vec<Message> = Vec::new();
    v.push(message("confined", 1, ""));
    v.push(message("unconfined", 1, ""));
    assert(table(v@) =~= events_spec(Interface::ZwpConfinedPointerV1));
    v
}

fn zxdg_toplevel_decoration_v1_events() -> (r: Vec<Message>)
    ensures
        table(r@) == events_spec(Interface::ZxdgToplevelDecorationV1),
        lettered(r@),
{
    proof {
        reveal_strlit("u");
    }
    let mut v: Vec<Message> = Vec::new();
    v.push(message("configure", 1, "u"));
    assert(table(v@) =~= events_spec(Interface::ZxdgToplevelDecorationV1));
    v
}

fn zwp_primary_selection_source_v1_events() -> (r: Vec<Message>)
    ensures
        table(r@) == events_spec(Interface::ZwpPrimarySelectionSourceV1),
        lettered(r@),
{
    proof {
        reveal_strlit("");
        reveal_strlit("sh");
    }
    let mut v: Vec<Message> = Vec::new();
    v.push(message("send", 1, "sh"));
    v.push(message("cancelled", 1, ""));
    assert(table(v@) =~= events_spec(Interface::ZwpPrimarySelectionSourceV1));
    v
}

fn zwp_primary_selection_device_v1_events() -> (r: Vec<Message>)
    ensures
        table(r@) == events_spec(Interface::ZwpPrimarySelectionDeviceV1),
        lettered(r@),
{
    proof {
        reveal_strlit("o");
    }
    let mut v: Vec<Message> = Vec::new();
    v.push(message("data_offer", 1, "o"));
    v.push(message("selection", 1, "o"));
    assert(table(v@) =~= events_spec(Interface::ZwpPrimarySelectionDeviceV1));
    v
}

fn zwp_primary_selection_offer_v1_events() -> (r: Vec<Message>)
    ensures
        table(r@) == events_spec(Interface::ZwpPrimarySelectionOfferV1),
        lettered(r@),
{
    proof {
        reveal_strlit("s");
    }
    let mut v: Vec<Message> = Vec::new();
    v.push(message("offer", 1, "s"));
    assert(table(v@) =~= events_spec(Interface::ZwpPrimarySelectionOfferV1));
    v
}

fn zwlr_layer_surface_v1_events() -> (r: Vec<Message>)
    ensures
        table(r@) == events_spec(Interface::ZwlrLayerSurfaceV1),
        lettered(r@),
{
    proof {
        reveal_strlit("");
        reveal_strlit("uuu");
    }
    let mut v: Vec<Message> = Vec::new();
    v.push(message("configure", 1, "uuu"));
    v.push(message("closed", 1, ""));
    assert(table(v@) =~= events_spec(Interface::ZwlrLayerSurfaceV1));
    v
}

fn ext_session_lock_v1_events() -> (r: Vec<Message>)
    ensures
        table(r@) == events_spec(Interface::ExtSessionLockV1),
        lettered(r@),
{
    proof {
        reveal_strlit("");
    }
    let mut v: Vec<Message> = Vec::new();
    v.push(message("locked", 1, ""));
    v.push(message("finished", 1, ""));
    assert(table(v@) =~= events_spec(Interface::ExtSessionLockV1));
    v
}

fn ext_session_lock_surface_v1_events() -> (r: Vec<Message>)
    ensures
        table(r@) == events_spec(Interface::ExtSessionLockSurfaceV1),
        lettered(r@),
{
    proof {
        reveal_strlit("uuu");
    }
    let mut v: Vec<Message> = Vec::new();
    v.push(message("configure", 1, "uuu"));
    assert(table(v@) =~= events_spec(Interface::ExtSessionLockSurfaceV1));
    v
}

fn zxdg_output_v1_events() -> (r: Vec<Message>)
    ensures
        table(r@) == events_spec(Interface::ZxdgOutputV1),
        lettered(r@),
{
    proof {
        reveal_strlit("");
        reveal_strlit("ii");
        reveal_strlit("s");
    }
    let mut v: Vec<Message> = Vec::new();
    v.push(message("logical_position", 1, "ii"));
    v.push(message("logical_size", 1, "ii"));
    v.push(message("done", 1, ""));
    v.push(message("name", 2, "s"));
    v.push(message("description", 2, "s"));
    assert(table(v@) =~= events_spec(Interface::ZxdgOutputV1));
    v
}

fn wl_output_events() -> (r: Vec<Message>)
    ensures
        table(r@) == events_spec(Interface::WlOutput),
        lettered(r@),
{
    proof {
        reveal_strlit("");
        reveal_strlit("i");
        reveal_strlit("iiiiissi");
        reveal_strlit("s");
        reveal_strlit("uiii");
    }
    let mut v: Vec<Message> = Vec::new();
    v.push(message("geometry", 1, "iiiiissi"));
    v.push(message("mode", 1, "uiii"));
    v.push(message("done", 2, ""));
    v.push(message("scale", 2, "i"));
    v.push(message("name", 4, "s"));
    v.push(message("description", 4, "s"));
    assert(table(v@) =~= events_spec(Interface::WlOutput));
    v
}

fn xdg_activation_token_v1_events() -> (r: Vec<Message>)
    ensures
        table(r@) == events_spec(Interface::XdgActivationTokenV1),
        lettered(r@),
{
    proof {
        reveal_strlit("s");
    }
    let mut v: Vec<Message> = Vec::new();
    v.push(message("done", 1, "s"));
    assert(table(v@) =~= events_spec(Interface::XdgActivationTokenV1));
    v
}

/// The events of an interface, by opcode.
pub fn events(i: Interface) -> (r: Vec<Message>)
    ensures
        table(r@) == events_spec(i),
        lettered(r@),
{
    match i {
        Interface::WlDisplay => wl_display_events(),
        Interface::WlRegistry => wl_registry_events(),
        Interface::WlCallback => wl_callback_events(),
        Interface::WlSurface => wl_surface_events(),
        Interface::WlShm => wl_shm_events(),
        Interface::WlBuffer => wl_buffer_events(),
        Interface::WlSeat => wl_seat_events(),
        Interface::WlPointer => wl_pointer_events(),
        Interface::WlKeyboard => wl_keyboard_events(),
        Interface::XdgWmBase => xdg_wm_base_events(),
        Interface::XdgSurface => xdg_surface_events(),
        Interface::XdgToplevel => xdg_toplevel_events(),
        Interface::XdgPopup => xdg_popup_events(),
        Interface::WlDataSource => wl_data_source_events(),
        Interface::WlDataDevice => wl_data_device_events(),
        Interface::WlDataOffer => wl_data_offer_events(),
        Interface::ExtIdleNotificationV1 => ext_idle_notification_v1_events(),
        Interface::ZwlrForeignToplevelManagerV1 => zwlr_foreign_toplevel_manager_v1_events(),
        Interface::ZwlrForeignToplevelHandleV1 => zwlr_foreign_toplevel_handle_v1_events(),
        Interface::ZwlrDataControlDeviceV1 => zwlr_data_control_device_v1_events(),
        Interface::ZwlrDataControlSourceV1 => zwlr_data_control_source_v1_events(),
        Interface::ZwlrDataControlOfferV1 => zwlr_data_control_offer_v1_events(),
        Interface::ZwlrScreencopyFrameV1 => zwlr_screencopy_frame_v1_events(),
        Interface::ExtForeignToplevelListV1 => ext_foreign_toplevel_list_v1_events(),
        Interface::ExtForeignToplevelHandleV1 => ext_foreign_toplevel_handle_v1_events(),
        Interface::ExtImageCopyCaptureSessionV1 => ext_image_copy_capture_session_v1_events(),
        Interface::ExtImageCopyCaptureFrameV1 => ext_image_copy_capture_frame_v1_events(),
        Interface::ExtImageCopyCaptureCursorSessionV1 => ext_image_copy_capture_cursor_session_v1_events(),
        Interface::ZwpLinuxDmabufV1 => zwp_linux_dmabuf_v1_events(),
        Interface::ZwpLinuxDmabufFeedbackV1 => zwp_linux_dmabuf_feedback_v1_events(),
        Interface::ZwpLinuxBufferParamsV1 => zwp_linux_buffer_params_v1_events(),
        Interface::ZwpRelativePointerV1 => zwp_relative_pointer_v1_events(),
        Interface::ZwpLockedPointerV1 => zwp_locked_pointer_v1_events(),
        Interface::ZwpConfinedPointerV1 => zwp_confined_pointer_v1_events(),
        Interface::ZxdgToplevelDecorationV1 => zxdg_toplevel_decoration_v1_events(),
        Interface::ZwpPrimarySelectionSourceV1 => zwp_primary_selection_source_v1_events(),
        Interface::ZwpPrimarySelectionDeviceV1 => zwp_primary_selection_device_v1_events(),
        Interface::ZwpPrimarySelectionOfferV1 => zwp_primary_selection_offer_v1_events(),
        Interface::ZwlrLayerSurfaceV1 => zwlr_layer_surface_v1_events(),
        Interface::ExtSessionLockV1 => ext_session_lock_v1_events(),
        Interface::ExtSessionLockSurfaceV1 => ext_session_lock_surface_v1_events(),
        Interface::ZxdgOutputV1 => zxdg_output_v1_events(),
        Interface::WlOutput => wl_output_events(),
        Interface::XdgActivationTokenV1 => xdg_activation_token_v1_events(),
        Interface::WlCompositor
        | Interface::WlRegion
        | Interface::WlSubcompositor
        | Interface::WlSubsurface
        | Interface::WlShmPool
        | Interface::XdgPositioner
        | Interface::WlDataDeviceManager
        | Interface::ExtIdleNotifierV1
        | Interface::ZwpIdleInhibitManagerV1
        | Interface::ZwpIdleInhibitorV1
        | Interface::ZwlrDataControlManagerV1
        | Interface::ZwlrScreencopyManagerV1
        | Interface::ExtImageCaptureSourceV1
        | Interface::ExtOutputImageCaptureSourceManagerV1
        | Interface::ExtForeignToplevelImageCaptureSourceManagerV1
        | Interface::ExtImageCopyCaptureManagerV1
        | Interface::ZwpRelativePointerManagerV1
        | Interface::ZwpPointerConstraintsV1
        | Interface::WpTearingControlManagerV1
        | Interface::WpTearingControlV1
        | Interface::ZxdgDecorationManagerV1
        | Interface::ZwpPrimarySelectionDeviceManagerV1
        | Interface::XwaylandShellV1
        | Interface::XwaylandSurfaceV1
        | Interface::ZwlrLayerShellV1
        | Interface::ExtSessionLockManagerV1
        | Interface::ZxdgOutputManagerV1
        | Interface::XdgActivationV1 => {
            let v: Vec<Message> = Vec::new();
            assert(table(v@) =~= events_spec(i));
            v
        },
    }
}

impl Interface {
    pub open spec fn name_spec(self) -> Seq<char> {
        match self {
            Interface::WlDisplay => "wl_display"@,
            Interface::WlRegistry => "wl_registry"@,
            Interface::WlCallback => "wl_callback"@,
            Interface::WlCompositor => "wl_compositor"@,
            Interface::WlSurface => "wl_surface"@,
            Interface::WlRegion => "wl_region"@,
            Interface::WlSubcompositor => "wl_subcompositor"@,
            Interface::WlSubsurface => "wl_subsurface"@,
            Interface::WlShm => "wl_shm"@,
            Interface::WlShmPool => "wl_shm_pool"@,
            Interface::WlBuffer => "wl_buffer"@,
            Interface::WlSeat => "wl_seat"@,
            Interface::WlPointer => "wl_pointer"@,
            Interface::WlKeyboard => "wl_keyboard"@,
            Interface::XdgWmBase => "xdg_wm_base"@,
            Interface::XdgPositioner => "xdg_positioner"@,
            Interface::XdgSurface => "xdg_surface"@,
            Interface::XdgToplevel => "xdg_toplevel"@,
            Interface::XdgPopup => "xdg_popup"@,
            Interface::WlDataDeviceManager => "wl_data_device_manager"@,
            Interface::WlDataSource => "wl_data_source"@,
            Interface::WlDataDevice => "wl_data_device"@,
            Interface::WlDataOffer => "wl_data_offer"@,
            Interface::ExtIdleNotifierV1 => "ext_idle_notifier_v1"@,
            Interface::ExtIdleNotificationV1 => "ext_idle_notification_v1"@,
            Interface::ZwpIdleInhibitManagerV1 => "zwp_idle_inhibit_manager_v1"@,
            Interface::ZwpIdleInhibitorV1 => "zwp_idle_inhibitor_v1"@,
            Interface::ZwlrForeignToplevelManagerV1 => "zwlr_foreign_toplevel_manager_v1"@,
            Interface::ZwlrForeignToplevelHandleV1 => "zwlr_foreign_toplevel_handle_v1"@,
            Interface::ZwlrDataControlManagerV1 => "zwlr_data_control_manager_v1"@,
            Interface::ZwlrDataControlDeviceV1 => "zwlr_data_control_device_v1"@,
            Interface::ZwlrDataControlSourceV1 => "zwlr_data_control_source_v1"@,
            Interface::ZwlrDataControlOfferV1 => "zwlr_data_control_offer_v1"@,
            Interface::ZwlrScreencopyManagerV1 => "zwlr_screencopy_manager_v1"@,
            Interface::ZwlrScreencopyFrameV1 => "zwlr_screencopy_frame_v1"@,
            Interface::ExtForeignToplevelListV1 => "ext_foreign_toplevel_list_v1"@,
            Interface::ExtForeignToplevelHandleV1 => "ext_foreign_toplevel_handle_v1"@,
            Interface::ExtImageCaptureSourceV1 => "ext_image_capture_source_v1"@,
            Interface::ExtOutputImageCaptureSourceManagerV1 => "ext_output_image_capture_source_manager_v1"@,
            Interface::ExtForeignToplevelImageCaptureSourceManagerV1 => "ext_foreign_toplevel_image_capture_source_manager_v1"@,
            Interface::ExtImageCopyCaptureManagerV1 => "ext_image_copy_capture_manager_v1"@,
            Interface::ExtImageCopyCaptureSessionV1 => "ext_image_copy_capture_session_v1"@,
            Interface::ExtImageCopyCaptureFrameV1 => "ext_image_copy_capture_frame_v1"@,
            Interface::ExtImageCopyCaptureCursorSessionV1 => "ext_image_copy_capture_cursor_session_v1"@,
            Interface::ZwpLinuxDmabufV1 => "zwp_linux_dmabuf_v1"@,
            Interface::ZwpLinuxDmabufFeedbackV1 => "zwp_linux_dmabuf_feedback_v1"@,
            Interface::ZwpLinuxBufferParamsV1 => "zwp_linux_buffer_params_v1"@,
            Interface::ZwpRelativePointerManagerV1 => "zwp_relative_pointer_manager_v1"@,
            Interface::ZwpRelativePointerV1 => "zwp_relative_pointer_v1"@,
            Interface::ZwpPointerConstraintsV1 => "zwp_pointer_constraints_v1"@,
            Interface::ZwpLockedPointerV1 => "zwp_locked_pointer_v1"@,
            Interface::ZwpConfinedPointerV1 => "zwp_confined_pointer_v1"@,
            Interface::WpTearingControlManagerV1 => "wp_tearing_control_manager_v1"@,
            Interface::WpTearingControlV1 => "wp_tearing_control_v1"@,
            Interface::ZxdgDecorationManagerV1 => "zxdg_decoration_manager_v1"@,
            Interface::ZxdgToplevelDecorationV1 => "zxdg_toplevel_decoration_v1"@,
            Interface::ZwpPrimarySelectionDeviceManagerV1 => "zwp_primary_selection_device_manager_v1"@,
            Interface::ZwpPrimarySelectionSourceV1 => "zwp_primary_selection_source_v1"@,
            Interface::ZwpPrimarySelectionDeviceV1 => "zwp_primary_selection_device_v1"@,
            Interface::ZwpPrimarySelectionOfferV1 => "zwp_primary_selection_offer_v1"@,
            Interface::XwaylandShellV1 => "xwayland_shell_v1"@,
            Interface::XwaylandSurfaceV1 => "xwayland_surface_v1"@,
            Interface::ZwlrLayerShellV1 => "zwlr_layer_shell_v1"@,
            Interface::ZwlrLayerSurfaceV1 => "zwlr_layer_surface_v1"@,
            Interface::ExtSessionLockManagerV1 => "ext_session_lock_manager_v1"@,
            Interface::ExtSessionLockV1 => "ext_session_lock_v1"@,
            Interface::ExtSessionLockSurfaceV1 => "ext_session_lock_surface_v1"@,
            Interface::ZxdgOutputManagerV1 => "zxdg_output_manager_v1"@,
            Interface::ZxdgOutputV1 => "zxdg_output_v1"@,
            Interface::WlOutput => "wl_output"@,
            Interface::XdgActivationV1 => "xdg_activation_v1"@,
            Interface::XdgActivationTokenV1 => "xdg_activation_token_v1"@,
        }
    }

    /// The name clients know it by.
    pub fn name(self) -> (r: &'static str)
        ensures
            r@ == self.name_spec(),
    {
        match self {
            Interface::WlDisplay => "wl_display",
            Interface::WlRegistry => "wl_registry",
            Interface::WlCallback => "wl_callback",
            Interface::WlCompositor => "wl_compositor",
            Interface::WlSurface => "wl_surface",
            Interface::WlRegion => "wl_region",
            Interface::WlSubcompositor => "wl_subcompositor",
            Interface::WlSubsurface => "wl_subsurface",
            Interface::WlShm => "wl_shm",
            Interface::WlShmPool => "wl_shm_pool",
            Interface::WlBuffer => "wl_buffer",
            Interface::WlSeat => "wl_seat",
            Interface::WlPointer => "wl_pointer",
            Interface::WlKeyboard => "wl_keyboard",
            Interface::XdgWmBase => "xdg_wm_base",
            Interface::XdgPositioner => "xdg_positioner",
            Interface::XdgSurface => "xdg_surface",
            Interface::XdgToplevel => "xdg_toplevel",
            Interface::XdgPopup => "xdg_popup",
            Interface::WlDataDeviceManager => "wl_data_device_manager",
            Interface::WlDataSource => "wl_data_source",
            Interface::WlDataDevice => "wl_data_device",
            Interface::WlDataOffer => "wl_data_offer",
            Interface::ExtIdleNotifierV1 => "ext_idle_notifier_v1",
            Interface::ExtIdleNotificationV1 => "ext_idle_notification_v1",
            Interface::ZwpIdleInhibitManagerV1 => "zwp_idle_inhibit_manager_v1",
            Interface::ZwpIdleInhibitorV1 => "zwp_idle_inhibitor_v1",
            Interface::ZwlrForeignToplevelManagerV1 => "zwlr_foreign_toplevel_manager_v1",
            Interface::ZwlrForeignToplevelHandleV1 => "zwlr_foreign_toplevel_handle_v1",
            Interface::ZwlrDataControlManagerV1 => "zwlr_data_control_manager_v1",
            Interface::ZwlrDataControlDeviceV1 => "zwlr_data_control_device_v1",
            Interface::ZwlrDataControlSourceV1 => "zwlr_data_control_source_v1",
            Interface::ZwlrDataControlOfferV1 => "zwlr_data_control_offer_v1",
            Interface::ZwlrScreencopyManagerV1 => "zwlr_screencopy_manager_v1",
            Interface::ZwlrScreencopyFrameV1 => "zwlr_screencopy_frame_v1",
            Interface::ExtForeignToplevelListV1 => "ext_foreign_toplevel_list_v1",
            Interface::ExtForeignToplevelHandleV1 => "ext_foreign_toplevel_handle_v1",
            Interface::ExtImageCaptureSourceV1 => "ext_image_capture_source_v1",
            Interface::ExtOutputImageCaptureSourceManagerV1 => "ext_output_image_capture_source_manager_v1",
            Interface::ExtForeignToplevelImageCaptureSourceManagerV1 => "ext_foreign_toplevel_image_capture_source_manager_v1",
            Interface::ExtImageCopyCaptureManagerV1 => "ext_image_copy_capture_manager_v1",
            Interface::ExtImageCopyCaptureSessionV1 => "ext_image_copy_capture_session_v1",
            Interface::ExtImageCopyCaptureFrameV1 => "ext_image_copy_capture_frame_v1",
            Interface::ExtImageCopyCaptureCursorSessionV1 => "ext_image_copy_capture_cursor_session_v1",
            Interface::ZwpLinuxDmabufV1 => "zwp_linux_dmabuf_v1",
            Interface::ZwpLinuxDmabufFeedbackV1 => "zwp_linux_dmabuf_feedback_v1",
            Interface::ZwpLinuxBufferParamsV1 => "zwp_linux_buffer_params_v1",
            Interface::ZwpRelativePointerManagerV1 => "zwp_relative_pointer_manager_v1",
            Interface::ZwpRelativePointerV1 => "zwp_relative_pointer_v1",
            Interface::ZwpPointerConstraintsV1 => "zwp_pointer_constraints_v1",
            Interface::ZwpLockedPointerV1 => "zwp_locked_pointer_v1",
            Interface::ZwpConfinedPointerV1 => "zwp_confined_pointer_v1",
            Interface::WpTearingControlManagerV1 => "wp_tearing_control_manager_v1",
            Interface::WpTearingControlV1 => "wp_tearing_control_v1",
            Interface::ZxdgDecorationManagerV1 => "zxdg_decoration_manager_v1",
            Interface::ZxdgToplevelDecorationV1 => "zxdg_toplevel_decoration_v1",
            Interface::ZwpPrimarySelectionDeviceManagerV1 => "zwp_primary_selection_device_manager_v1",
            Interface::ZwpPrimarySelectionSourceV1 => "zwp_primary_selection_source_v1",
            Interface::ZwpPrimarySelectionDeviceV1 => "zwp_primary_selection_device_v1",
            Interface::ZwpPrimarySelectionOfferV1 => "zwp_primary_selection_offer_v1",
            Interface::XwaylandShellV1 => "xwayland_shell_v1",
            Interface::XwaylandSurfaceV1 => "xwayland_surface_v1",
            Interface::ZwlrLayerShellV1 => "zwlr_layer_shell_v1",
            Interface::ZwlrLayerSurfaceV1 => "zwlr_layer_surface_v1",
            Interface::ExtSessionLockManagerV1 => "ext_session_lock_manager_v1",
            Interface::ExtSessionLockV1 => "ext_session_lock_v1",
            Interface::ExtSessionLockSurfaceV1 => "ext_session_lock_surface_v1",
            Interface::ZxdgOutputManagerV1 => "zxdg_output_manager_v1",
            Interface::ZxdgOutputV1 => "zxdg_output_v1",
            Interface::WlOutput => "wl_output",
            Interface::XdgActivationV1 => "xdg_activation_v1",
            Interface::XdgActivationTokenV1 => "xdg_activation_token_v1",
        }
    }

    pub open spec fn version_spec(self) -> u32 {
        match self {
            Interface::WlDisplay => 1,
            Interface::WlRegistry => 1,
            Interface::WlCallback => 1,
            Interface::WlCompositor => 6,
            Interface::WlSurface => 6,
            Interface::WlRegion => 1,
            Interface::WlSubcompositor => 1,
            Interface::WlSubsurface => 1,
            Interface::WlShm => 2,
            Interface::WlShmPool => 1,
            Interface::WlBuffer => 1,
            Interface::WlSeat => 9,
            Interface::WlPointer => 9,
            Interface::WlKeyboard => 9,
            Interface::XdgWmBase => 6,
            Interface::XdgPositioner => 6,
            Interface::XdgSurface => 6,
            Interface::XdgToplevel => 6,
            Interface::XdgPopup => 6,
            Interface::WlDataDeviceManager => 3,
            Interface::WlDataSource => 3,
            Interface::WlDataDevice => 3,
            Interface::WlDataOffer => 3,
            Interface::ExtIdleNotifierV1 => 1,
            Interface::ExtIdleNotificationV1 => 1,
            Interface::ZwpIdleInhibitManagerV1 => 1,
            Interface::ZwpIdleInhibitorV1 => 1,
            Interface::ZwlrForeignToplevelManagerV1 => 3,
            Interface::ZwlrForeignToplevelHandleV1 => 3,
            Interface::ZwlrDataControlManagerV1 => 2,
            Interface::ZwlrDataControlDeviceV1 => 2,
            Interface::ZwlrDataControlSourceV1 => 1,
            Interface::ZwlrDataControlOfferV1 => 1,
            Interface::ZwlrScreencopyManagerV1 => 3,
            Interface::ZwlrScreencopyFrameV1 => 3,
            Interface::ExtForeignToplevelListV1 => 1,
            Interface::ExtForeignToplevelHandleV1 => 1,
            Interface::ExtImageCaptureSourceV1 => 1,
            Interface::ExtOutputImageCaptureSourceManagerV1 => 1,
            Interface::ExtForeignToplevelImageCaptureSourceManagerV1 => 1,
            Interface::ExtImageCopyCaptureManagerV1 => 1,
            Interface::ExtImageCopyCaptureSessionV1 => 1,
            Interface::ExtImageCopyCaptureFrameV1 => 1,
            Interface::ExtImageCopyCaptureCursorSessionV1 => 1,
            Interface::ZwpLinuxDmabufV1 => 4,
            Interface::ZwpLinuxDmabufFeedbackV1 => 4,
            Interface::ZwpLinuxBufferParamsV1 => 4,
            Interface::ZwpRelativePointerManagerV1 => 1,
            Interface::ZwpRelativePointerV1 => 1,
            Interface::ZwpPointerConstraintsV1 => 1,
            Interface::ZwpLockedPointerV1 => 1,
            Interface::ZwpConfinedPointerV1 => 1,
            Interface::WpTearingControlManagerV1 => 1,
            Interface::WpTearingControlV1 => 1,
            Interface::ZxdgDecorationManagerV1 => 1,
            Interface::ZxdgToplevelDecorationV1 => 1,
            Interface::ZwpPrimarySelectionDeviceManagerV1 => 1,
            Interface::ZwpPrimarySelectionSourceV1 => 1,
            Interface::ZwpPrimarySelectionDeviceV1 => 1,
            Interface::ZwpPrimarySelectionOfferV1 => 1,
            Interface::XwaylandShellV1 => 1,
            Interface::XwaylandSurfaceV1 => 1,
            Interface::ZwlrLayerShellV1 => 5,
            Interface::ZwlrLayerSurfaceV1 => 5,
            Interface::ExtSessionLockManagerV1 => 1,
            Interface::ExtSessionLockV1 => 1,
            Interface::ExtSessionLockSurfaceV1 => 1,
            Interface::ZxdgOutputManagerV1 => 3,
            Interface::ZxdgOutputV1 => 3,
            Interface::WlOutput => 4,
            Interface::XdgActivationV1 => 1,
            Interface::XdgActivationTokenV1 => 1,
        }
    }

    /// The newest version spoken.
    pub fn version(self) -> (r: u32)
        ensures
            r == self.version_spec(),
    {
        match self {
            Interface::WlDisplay => 1,
            Interface::WlRegistry => 1,
            Interface::WlCallback => 1,
            Interface::WlCompositor => 6,
            Interface::WlSurface => 6,
            Interface::WlRegion => 1,
            Interface::WlSubcompositor => 1,
            Interface::WlSubsurface => 1,
            Interface::WlShm => 2,
            Interface::WlShmPool => 1,
            Interface::WlBuffer => 1,
            Interface::WlSeat => 9,
            Interface::WlPointer => 9,
            Interface::WlKeyboard => 9,
            Interface::XdgWmBase => 6,
            Interface::XdgPositioner => 6,
            Interface::XdgSurface => 6,
            Interface::XdgToplevel => 6,
            Interface::XdgPopup => 6,
            Interface::WlDataDeviceManager => 3,
            Interface::WlDataSource => 3,
            Interface::WlDataDevice => 3,
            Interface::WlDataOffer => 3,
            Interface::ExtIdleNotifierV1 => 1,
            Interface::ExtIdleNotificationV1 => 1,
            Interface::ZwpIdleInhibitManagerV1 => 1,
            Interface::ZwpIdleInhibitorV1 => 1,
            Interface::ZwlrForeignToplevelManagerV1 => 3,
            Interface::ZwlrForeignToplevelHandleV1 => 3,
            Interface::ZwlrDataControlManagerV1 => 2,
            Interface::ZwlrDataControlDeviceV1 => 2,
            Interface::ZwlrDataControlSourceV1 => 1,
            Interface::ZwlrDataControlOfferV1 => 1,
            Interface::ZwlrScreencopyManagerV1 => 3,
            Interface::ZwlrScreencopyFrameV1 => 3,
            Interface::ExtForeignToplevelListV1 => 1,
            Interface::ExtForeignToplevelHandleV1 => 1,
            Interface::ExtImageCaptureSourceV1 => 1,
            Interface::ExtOutputImageCaptureSourceManagerV1 => 1,
            Interface::ExtForeignToplevelImageCaptureSourceManagerV1 => 1,
            Interface::ExtImageCopyCaptureManagerV1 => 1,
            Interface::ExtImageCopyCaptureSessionV1 => 1,
            Interface::ExtImageCopyCaptureFrameV1 => 1,
            Interface::ExtImageCopyCaptureCursorSessionV1 => 1,
            Interface::ZwpLinuxDmabufV1 => 4,
            Interface::ZwpLinuxDmabufFeedbackV1 => 4,
            Interface::ZwpLinuxBufferParamsV1 => 4,
            Interface::ZwpRelativePointerManagerV1 => 1,
            Interface::ZwpRelativePointerV1 => 1,
            Interface::ZwpPointerConstraintsV1 => 1,
            Interface::ZwpLockedPointerV1 => 1,
            Interface::ZwpConfinedPointerV1 => 1,
            Interface::WpTearingControlManagerV1 => 1,
            Interface::WpTearingControlV1 => 1,
            Interface::ZxdgDecorationManagerV1 => 1,
            Interface::ZxdgToplevelDecorationV1 => 1,
            Interface::ZwpPrimarySelectionDeviceManagerV1 => 1,
            Interface::ZwpPrimarySelectionSourceV1 => 1,
            Interface::ZwpPrimarySelectionDeviceV1 => 1,
            Interface::ZwpPrimarySelectionOfferV1 => 1,
            Interface::XwaylandShellV1 => 1,
            Interface::XwaylandSurfaceV1 => 1,
            Interface::ZwlrLayerShellV1 => 5,
            Interface::ZwlrLayerSurfaceV1 => 5,
            Interface::ExtSessionLockManagerV1 => 1,
            Interface::ExtSessionLockV1 => 1,
            Interface::ExtSessionLockSurfaceV1 => 1,
            Interface::ZxdgOutputManagerV1 => 3,
            Interface::ZxdgOutputV1 => 3,
            Interface::WlOutput => 4,
            Interface::XdgActivationV1 => 1,
            Interface::XdgActivationTokenV1 => 1,
        }
    }
}

/// The display's error for a failure of the server.
pub const IMPLEMENTATION: u32 = 3;

} // verus!
