use carrot::protocol::events::{Event, Out, Sent};
use carrot::protocol::interfaces::{events, requests, Interface};
use carrot::protocol::wire::{parse, Arg, EventOut, Message, WireError};
use carrot::protocol::{dispatch, dispatch_by, stamp, DispatchError, Fixed, ObjectId, Stamp};

/// A message's number and the version it came with, among the requests or else the
/// events of an interface.
fn listed(i: Interface, name: &str) -> (u32, u32) {
    for rows in [requests(i), events(i)] {
        for (n, m) in rows.iter().enumerate() {
            if m.name == name {
                return (n as u32, m.since);
            }
        }
    }
    panic!("{} has no message {}", i.name(), name)
}

fn opcode(i: Interface, name: &str) -> u32 {
    listed(i, name).0
}

fn since(i: Interface, name: &str) -> u32 {
    listed(i, name).1
}

#[test]
fn opcodes_are_pinned() {
    assert_eq!(opcode(Interface::WlDisplay, "sync"), 0);
    assert_eq!(opcode(Interface::WlDisplay, "get_registry"), 1);
    assert_eq!(opcode(Interface::WlDisplay, "error"), 0);
    assert_eq!(opcode(Interface::WlDisplay, "delete_id"), 1);
    assert_eq!(opcode(Interface::WlRegistry, "bind"), 0);
    assert_eq!(opcode(Interface::WlRegistry, "global"), 0);
    assert_eq!(opcode(Interface::WlRegistry, "global_remove"), 1);
    assert_eq!(opcode(Interface::WlCallback, "done"), 0);
    assert_eq!(opcode(Interface::WlCompositor, "create_surface"), 0);
    assert_eq!(opcode(Interface::WlCompositor, "create_region"), 1);
    assert_eq!(opcode(Interface::WlSurface, "destroy"), 0);
    assert_eq!(opcode(Interface::WlSurface, "attach"), 1);
    assert_eq!(opcode(Interface::WlSurface, "damage"), 2);
    assert_eq!(opcode(Interface::WlSurface, "frame"), 3);
    assert_eq!(opcode(Interface::WlSurface, "set_opaque_region"), 4);
    assert_eq!(opcode(Interface::WlSurface, "set_input_region"), 5);
    assert_eq!(opcode(Interface::WlSurface, "commit"), 6);
    assert_eq!(opcode(Interface::WlSurface, "set_buffer_transform"), 7);
    assert_eq!(opcode(Interface::WlSurface, "set_buffer_scale"), 8);
    assert_eq!(opcode(Interface::WlSurface, "damage_buffer"), 9);
    assert_eq!(opcode(Interface::WlSurface, "offset"), 10);
    assert_eq!(opcode(Interface::WlSurface, "enter"), 0);
    assert_eq!(opcode(Interface::WlSurface, "leave"), 1);
    assert_eq!(opcode(Interface::WlSurface, "preferred_buffer_scale"), 2);
    assert_eq!(opcode(Interface::WlSurface, "preferred_buffer_transform"), 3);
    assert_eq!(opcode(Interface::WlRegion, "destroy"), 0);
    assert_eq!(opcode(Interface::WlRegion, "add"), 1);
    assert_eq!(opcode(Interface::WlRegion, "subtract"), 2);
    assert_eq!(opcode(Interface::WlSubcompositor, "get_subsurface"), 1);
    assert_eq!(opcode(Interface::WlSubsurface, "destroy"), 0);
    assert_eq!(opcode(Interface::WlSubsurface, "set_position"), 1);
    assert_eq!(opcode(Interface::WlSubsurface, "place_above"), 2);
    assert_eq!(opcode(Interface::WlSubsurface, "place_below"), 3);
    assert_eq!(opcode(Interface::WlSubsurface, "set_sync"), 4);
    assert_eq!(opcode(Interface::WlSubsurface, "set_desync"), 5);
    assert_eq!(opcode(Interface::WlShm, "create_pool"), 0);
    assert_eq!(opcode(Interface::WlShm, "release"), 1);
    assert_eq!(opcode(Interface::WlShm, "format"), 0);
    assert_eq!(opcode(Interface::WlShmPool, "create_buffer"), 0);
    assert_eq!(opcode(Interface::WlShmPool, "destroy"), 1);
    assert_eq!(opcode(Interface::WlShmPool, "resize"), 2);
    assert_eq!(opcode(Interface::WlBuffer, "destroy"), 0);
    assert_eq!(opcode(Interface::WlBuffer, "release"), 0);
    assert_eq!(opcode(Interface::WlSeat, "release"), 3);
    assert_eq!(opcode(Interface::WlSeat, "name"), 1);
    assert_eq!(since(Interface::WlSeat, "name"), 2);
    assert_eq!(opcode(Interface::WlPointer, "release"), 1);
    assert_eq!(opcode(Interface::WlPointer, "frame"), 5);
    assert_eq!(opcode(Interface::WlPointer, "axis_value120"), 9);
    assert_eq!(since(Interface::WlPointer, "axis_value120"), 8);
    assert_eq!(opcode(Interface::WlPointer, "axis_relative_direction"), 10);
    assert_eq!(opcode(Interface::WlKeyboard, "keymap"), 0);
    assert_eq!(opcode(Interface::WlKeyboard, "modifiers"), 4);
    assert_eq!(opcode(Interface::WlKeyboard, "repeat_info"), 5);
    assert_eq!(since(Interface::WlKeyboard, "repeat_info"), 4);
    assert_eq!(opcode(Interface::XdgWmBase, "destroy"), 0);
    assert_eq!(opcode(Interface::XdgWmBase, "create_positioner"), 1);
    assert_eq!(opcode(Interface::XdgWmBase, "get_xdg_surface"), 2);
    assert_eq!(opcode(Interface::XdgWmBase, "pong"), 3);
    assert_eq!(opcode(Interface::XdgWmBase, "ping"), 0);
    assert_eq!(opcode(Interface::XdgPositioner, "set_size"), 1);
    assert_eq!(opcode(Interface::XdgPositioner, "set_offset"), 6);
    assert_eq!(opcode(Interface::XdgPositioner, "set_parent_configure"), 9);
    assert_eq!(opcode(Interface::XdgSurface, "get_toplevel"), 1);
    assert_eq!(opcode(Interface::XdgSurface, "get_popup"), 2);
    assert_eq!(opcode(Interface::XdgSurface, "set_window_geometry"), 3);
    assert_eq!(opcode(Interface::XdgSurface, "ack_configure"), 4);
    assert_eq!(opcode(Interface::XdgSurface, "configure"), 0);
    assert_eq!(opcode(Interface::XdgToplevel, "set_parent"), 1);
    assert_eq!(opcode(Interface::XdgToplevel, "move"), 5);
    assert_eq!(opcode(Interface::XdgToplevel, "set_max_size"), 7);
    assert_eq!(opcode(Interface::XdgToplevel, "set_fullscreen"), 11);
    assert_eq!(opcode(Interface::XdgToplevel, "set_minimized"), 13);
    assert_eq!(opcode(Interface::XdgToplevel, "configure"), 0);
    assert_eq!(opcode(Interface::XdgToplevel, "close"), 1);
    assert_eq!(opcode(Interface::XdgToplevel, "wm_capabilities"), 3);
    assert_eq!(since(Interface::XdgToplevel, "wm_capabilities"), 5);
    assert_eq!(opcode(Interface::XdgPopup, "grab"), 1);
    assert_eq!(opcode(Interface::XdgPopup, "reposition"), 2);
    assert_eq!(opcode(Interface::XdgPopup, "configure"), 0);
    assert_eq!(opcode(Interface::XdgPopup, "popup_done"), 1);
    assert_eq!(opcode(Interface::WlDataDeviceManager, "create_data_source"), 0);
    assert_eq!(opcode(Interface::WlDataDeviceManager, "get_data_device"), 1);
    assert_eq!(opcode(Interface::WlDataSource, "offer"), 0);
    assert_eq!(opcode(Interface::WlDataSource, "set_actions"), 2);
    assert_eq!(opcode(Interface::WlDataSource, "target"), 0);
    assert_eq!(opcode(Interface::WlDataSource, "send"), 1);
    assert_eq!(opcode(Interface::WlDataSource, "cancelled"), 2);
    assert_eq!(opcode(Interface::WlDataDevice, "start_drag"), 0);
    assert_eq!(opcode(Interface::WlDataDevice, "set_selection"), 1);
    assert_eq!(opcode(Interface::WlDataDevice, "release"), 2);
    assert_eq!(opcode(Interface::WlDataDevice, "data_offer"), 0);
    assert_eq!(opcode(Interface::WlDataDevice, "selection"), 5);
    assert_eq!(opcode(Interface::WlDataOffer, "accept"), 0);
    assert_eq!(opcode(Interface::WlDataOffer, "receive"), 1);
    assert_eq!(opcode(Interface::WlDataOffer, "finish"), 3);
    assert_eq!(opcode(Interface::WlDataOffer, "offer"), 0);
    assert_eq!(opcode(Interface::ZxdgDecorationManagerV1, "get_toplevel_decoration"), 1);
    assert_eq!(opcode(Interface::ZxdgToplevelDecorationV1, "set_mode"), 1);
    assert_eq!(opcode(Interface::ZxdgToplevelDecorationV1, "unset_mode"), 2);
    assert_eq!(opcode(Interface::ZxdgToplevelDecorationV1, "configure"), 0);
    assert_eq!(opcode(Interface::ZwpPrimarySelectionDeviceManagerV1, "create_source"), 0);
    assert_eq!(opcode(Interface::ZwpPrimarySelectionDeviceManagerV1, "get_device"), 1);
    assert_eq!(opcode(Interface::ZwpPrimarySelectionSourceV1, "offer"), 0);
    assert_eq!(opcode(Interface::ZwpPrimarySelectionSourceV1, "send"), 0);
    assert_eq!(opcode(Interface::ZwpPrimarySelectionSourceV1, "cancelled"), 1);
    assert_eq!(opcode(Interface::ZwpPrimarySelectionDeviceV1, "set_selection"), 0);
    assert_eq!(opcode(Interface::ZwpPrimarySelectionDeviceV1, "data_offer"), 0);
    assert_eq!(opcode(Interface::ZwpPrimarySelectionDeviceV1, "selection"), 1);
    assert_eq!(opcode(Interface::ZwpPrimarySelectionOfferV1, "receive"), 0);
    assert_eq!(opcode(Interface::ZwpPrimarySelectionOfferV1, "offer"), 0);
    assert_eq!(opcode(Interface::ZwlrScreencopyManagerV1, "capture_output_region"), 1);
    assert_eq!(opcode(Interface::ZwlrScreencopyFrameV1, "copy"), 0);
    assert_eq!(opcode(Interface::ZwlrScreencopyFrameV1, "copy_with_damage"), 2);
    assert_eq!(opcode(Interface::ZwlrScreencopyFrameV1, "buffer"), 0);
    assert_eq!(opcode(Interface::ZwlrScreencopyFrameV1, "ready"), 2);
    assert_eq!(opcode(Interface::ZwlrScreencopyFrameV1, "damage"), 4);
    assert_eq!(opcode(Interface::ZwlrScreencopyFrameV1, "linux_dmabuf"), 5);
    assert_eq!(opcode(Interface::ZwlrScreencopyFrameV1, "buffer_done"), 6);
    assert_eq!(opcode(Interface::ZwlrForeignToplevelManagerV1, "stop"), 0);
    assert_eq!(opcode(Interface::ZwlrForeignToplevelManagerV1, "toplevel"), 0);
    assert_eq!(opcode(Interface::ZwlrForeignToplevelManagerV1, "finished"), 1);
    assert_eq!(opcode(Interface::ZwlrForeignToplevelHandleV1, "activate"), 4);
    assert_eq!(opcode(Interface::ZwlrForeignToplevelHandleV1, "close"), 5);
    assert_eq!(opcode(Interface::ZwlrForeignToplevelHandleV1, "destroy"), 7);
    assert_eq!(opcode(Interface::ZwlrForeignToplevelHandleV1, "set_fullscreen"), 8);
    assert_eq!(opcode(Interface::ZwlrForeignToplevelHandleV1, "title"), 0);
    assert_eq!(opcode(Interface::ZwlrForeignToplevelHandleV1, "state"), 4);
    assert_eq!(opcode(Interface::ZwlrForeignToplevelHandleV1, "done"), 5);
    assert_eq!(opcode(Interface::ZwlrForeignToplevelHandleV1, "closed"), 6);
    assert_eq!(opcode(Interface::ZwlrForeignToplevelHandleV1, "parent"), 7);
    assert_eq!(opcode(Interface::ZwlrScreencopyFrameV1, "failed"), 3);
    assert_eq!(opcode(Interface::ExtForeignToplevelListV1, "stop"), 0);
    assert_eq!(opcode(Interface::ExtForeignToplevelListV1, "destroy"), 1);
    assert_eq!(opcode(Interface::ExtForeignToplevelListV1, "toplevel"), 0);
    assert_eq!(opcode(Interface::ExtForeignToplevelListV1, "finished"), 1);
    assert_eq!(opcode(Interface::ExtForeignToplevelHandleV1, "destroy"), 0);
    assert_eq!(opcode(Interface::ExtForeignToplevelHandleV1, "closed"), 0);
    assert_eq!(opcode(Interface::ExtForeignToplevelHandleV1, "done"), 1);
    assert_eq!(opcode(Interface::ExtForeignToplevelHandleV1, "title"), 2);
    assert_eq!(opcode(Interface::ExtForeignToplevelHandleV1, "app_id"), 3);
    assert_eq!(opcode(Interface::ExtForeignToplevelHandleV1, "identifier"), 4);
    assert_eq!(opcode(Interface::ExtImageCaptureSourceV1, "destroy"), 0);
    assert_eq!(opcode(Interface::ExtOutputImageCaptureSourceManagerV1, "create_source"), 0);
    assert_eq!(opcode(Interface::ExtOutputImageCaptureSourceManagerV1, "destroy"), 1);
    assert_eq!(opcode(Interface::ExtForeignToplevelImageCaptureSourceManagerV1, "create_source"), 0);
    assert_eq!(opcode(Interface::ExtForeignToplevelImageCaptureSourceManagerV1, "destroy"), 1);
    assert_eq!(opcode(Interface::ExtImageCopyCaptureManagerV1, "create_session"), 0);
    assert_eq!(opcode(Interface::ExtImageCopyCaptureManagerV1, "create_pointer_cursor_session"), 1);
    assert_eq!(opcode(Interface::ExtImageCopyCaptureManagerV1, "destroy"), 2);
    assert_eq!(opcode(Interface::ExtImageCopyCaptureSessionV1, "create_frame"), 0);
    assert_eq!(opcode(Interface::ExtImageCopyCaptureSessionV1, "destroy"), 1);
    assert_eq!(opcode(Interface::ExtImageCopyCaptureSessionV1, "buffer_size"), 0);
    assert_eq!(opcode(Interface::ExtImageCopyCaptureSessionV1, "shm_format"), 1);
    assert_eq!(opcode(Interface::ExtImageCopyCaptureSessionV1, "dmabuf_device"), 2);
    assert_eq!(opcode(Interface::ExtImageCopyCaptureSessionV1, "dmabuf_format"), 3);
    assert_eq!(opcode(Interface::ExtImageCopyCaptureSessionV1, "done"), 4);
    assert_eq!(opcode(Interface::ExtImageCopyCaptureSessionV1, "stopped"), 5);
    assert_eq!(opcode(Interface::ExtImageCopyCaptureFrameV1, "destroy"), 0);
    assert_eq!(opcode(Interface::ExtImageCopyCaptureFrameV1, "attach_buffer"), 1);
    assert_eq!(opcode(Interface::ExtImageCopyCaptureFrameV1, "damage_buffer"), 2);
    assert_eq!(opcode(Interface::ExtImageCopyCaptureFrameV1, "capture"), 3);
    assert_eq!(opcode(Interface::ExtImageCopyCaptureFrameV1, "transform"), 0);
    assert_eq!(opcode(Interface::ExtImageCopyCaptureFrameV1, "damage"), 1);
    assert_eq!(opcode(Interface::ExtImageCopyCaptureFrameV1, "presentation_time"), 2);
    assert_eq!(opcode(Interface::ExtImageCopyCaptureFrameV1, "ready"), 3);
    assert_eq!(opcode(Interface::ExtImageCopyCaptureFrameV1, "failed"), 4);
    assert_eq!(opcode(Interface::ExtImageCopyCaptureCursorSessionV1, "destroy"), 0);
    assert_eq!(opcode(Interface::ExtImageCopyCaptureCursorSessionV1, "get_capture_session"), 1);
    assert_eq!(opcode(Interface::ExtImageCopyCaptureCursorSessionV1, "enter"), 0);
    assert_eq!(opcode(Interface::ExtImageCopyCaptureCursorSessionV1, "leave"), 1);
    assert_eq!(opcode(Interface::ExtImageCopyCaptureCursorSessionV1, "position"), 2);
    assert_eq!(opcode(Interface::ExtImageCopyCaptureCursorSessionV1, "hotspot"), 3);
    assert_eq!(opcode(Interface::ZwpLinuxDmabufV1, "create_params"), 1);
    assert_eq!(opcode(Interface::ZwpLinuxDmabufV1, "get_default_feedback"), 2);
    assert_eq!(opcode(Interface::ZwpLinuxDmabufV1, "get_surface_feedback"), 3);
    assert_eq!(opcode(Interface::ZwpLinuxDmabufV1, "modifier"), 1);
    assert_eq!(opcode(Interface::ZwpLinuxDmabufFeedbackV1, "format_table"), 1);
    assert_eq!(opcode(Interface::ZwpLinuxDmabufFeedbackV1, "main_device"), 2);
    assert_eq!(opcode(Interface::ZwpLinuxDmabufFeedbackV1, "tranche_done"), 3);
    assert_eq!(opcode(Interface::ZwpLinuxDmabufFeedbackV1, "tranche_formats"), 5);
    assert_eq!(opcode(Interface::ZwpLinuxDmabufFeedbackV1, "tranche_flags"), 6);
    assert_eq!(opcode(Interface::ZwpLinuxBufferParamsV1, "add"), 1);
    assert_eq!(opcode(Interface::ZwpLinuxBufferParamsV1, "create"), 2);
    assert_eq!(opcode(Interface::ZwpLinuxBufferParamsV1, "create_immed"), 3);
    assert_eq!(opcode(Interface::ZwpLinuxBufferParamsV1, "created"), 0);
    assert_eq!(opcode(Interface::ZwpLinuxBufferParamsV1, "failed"), 1);
    assert_eq!(opcode(Interface::ZwpRelativePointerManagerV1, "get_relative_pointer"), 1);
    assert_eq!(opcode(Interface::ZwpRelativePointerV1, "relative_motion"), 0);
    assert_eq!(opcode(Interface::ZwpPointerConstraintsV1, "lock_pointer"), 1);
    assert_eq!(opcode(Interface::ZwpPointerConstraintsV1, "confine_pointer"), 2);
    assert_eq!(opcode(Interface::ZwpLockedPointerV1, "set_cursor_position_hint"), 1);
    assert_eq!(opcode(Interface::ZwpLockedPointerV1, "set_region"), 2);
    assert_eq!(opcode(Interface::ZwpLockedPointerV1, "locked"), 0);
    assert_eq!(opcode(Interface::ZwpLockedPointerV1, "unlocked"), 1);
    assert_eq!(opcode(Interface::ZwpConfinedPointerV1, "set_region"), 1);
    assert_eq!(opcode(Interface::ZwpConfinedPointerV1, "confined"), 0);
    assert_eq!(opcode(Interface::ZwpConfinedPointerV1, "unconfined"), 1);
    assert_eq!(opcode(Interface::WpTearingControlManagerV1, "get_tearing_control"), 1);
    assert_eq!(opcode(Interface::WpTearingControlV1, "set_presentation_hint"), 0);
    assert_eq!(opcode(Interface::WpTearingControlV1, "destroy"), 1);
    assert_eq!(opcode(Interface::XwaylandShellV1, "get_xwayland_surface"), 1);
    assert_eq!(opcode(Interface::XwaylandSurfaceV1, "set_serial"), 0);
    assert_eq!(opcode(Interface::XwaylandSurfaceV1, "destroy"), 1);
    assert_eq!(opcode(Interface::ZwlrLayerShellV1, "get_layer_surface"), 0);
    assert_eq!(opcode(Interface::ZwlrLayerShellV1, "destroy"), 1);
    assert_eq!(since(Interface::ZwlrLayerShellV1, "destroy"), 3);
    assert_eq!(opcode(Interface::ZwlrLayerSurfaceV1, "set_size"), 0);
    assert_eq!(opcode(Interface::ZwlrLayerSurfaceV1, "set_anchor"), 1);
    assert_eq!(opcode(Interface::ZwlrLayerSurfaceV1, "set_exclusive_zone"), 2);
    assert_eq!(opcode(Interface::ZwlrLayerSurfaceV1, "set_margin"), 3);
    assert_eq!(opcode(Interface::ZwlrLayerSurfaceV1, "set_keyboard_interactivity"), 4);
    assert_eq!(opcode(Interface::ZwlrLayerSurfaceV1, "get_popup"), 5);
    assert_eq!(opcode(Interface::ZwlrLayerSurfaceV1, "ack_configure"), 6);
    assert_eq!(opcode(Interface::ZwlrLayerSurfaceV1, "destroy"), 7);
    assert_eq!(opcode(Interface::ZwlrLayerSurfaceV1, "set_layer"), 8);
    assert_eq!(since(Interface::ZwlrLayerSurfaceV1, "set_layer"), 2);
    assert_eq!(opcode(Interface::ZwlrLayerSurfaceV1, "set_exclusive_edge"), 9);
    assert_eq!(since(Interface::ZwlrLayerSurfaceV1, "set_exclusive_edge"), 5);
    assert_eq!(opcode(Interface::ZwlrLayerSurfaceV1, "configure"), 0);
    assert_eq!(opcode(Interface::ZwlrLayerSurfaceV1, "closed"), 1);
    assert_eq!(opcode(Interface::ZxdgOutputManagerV1, "get_xdg_output"), 1);
    assert_eq!(opcode(Interface::ZxdgOutputV1, "logical_position"), 0);
    assert_eq!(opcode(Interface::ZxdgOutputV1, "logical_size"), 1);
    assert_eq!(opcode(Interface::ZxdgOutputV1, "done"), 2);
    assert_eq!(opcode(Interface::ZxdgOutputV1, "name"), 3);
    assert_eq!(since(Interface::ZxdgOutputV1, "name"), 2);
    assert_eq!(opcode(Interface::WlOutput, "release"), 0);
    assert_eq!(opcode(Interface::WlOutput, "geometry"), 0);
    assert_eq!(opcode(Interface::WlOutput, "mode"), 1);
    assert_eq!(opcode(Interface::WlOutput, "done"), 2);
    assert_eq!(opcode(Interface::WlOutput, "scale"), 3);
    assert_eq!(opcode(Interface::WlOutput, "name"), 4);
    assert_eq!(opcode(Interface::WlOutput, "description"), 5);
}

#[test]
fn golden_registry_global() {
    let mut o = EventOut::new();
    Sent {
        client: 1,
        object: ObjectId(2),
        event: Event::Global { name: 3, interface: "wl_compositor".to_owned(), version: 6 },
    }
    .write(&mut o);
    let mut want = Vec::new();
    want.extend(2u32.to_ne_bytes());
    // 36 bytes: header 8, name 4, length 4 and "wl_compositor\0" filled up to 16, version 4
    want.extend((36u32 << 16).to_ne_bytes());
    want.extend(3u32.to_ne_bytes());
    want.extend(14u32.to_ne_bytes());
    want.extend(b"wl_compositor\0\0\0");
    want.extend(6u32.to_ne_bytes());
    assert_eq!(o.bytes, want);
    assert!(o.fds.is_empty());
}

#[test]
fn golden_display_error() {
    let mut o = EventOut::new();
    Sent {
        client: 1,
        object: ObjectId(1),
        event: Event::Error { object: ObjectId(9), code: 3, message: "oops".to_owned() },
    }
    .write(&mut o);
    let mut want = Vec::new();
    want.extend(1u32.to_ne_bytes());
    // 28 bytes: header 8, object 4, code 4, length 4 and "oops\0" filled up to 8
    want.extend((28u32 << 16).to_ne_bytes());
    want.extend(9u32.to_ne_bytes());
    want.extend(3u32.to_ne_bytes());
    want.extend(5u32.to_ne_bytes());
    want.extend(b"oops\0\0\0\0");
    assert_eq!(o.bytes, want);
}

#[test]
fn golden_callback_done() {
    let mut o = EventOut::new();
    Sent { client: 1, object: ObjectId(5), event: Event::CallbackDone { data: 0 } }.write(&mut o);
    let mut want = Vec::new();
    want.extend(5u32.to_ne_bytes());
    want.extend((12u32 << 16).to_ne_bytes());
    want.extend(0u32.to_ne_bytes());
    assert_eq!(o.bytes, want);
}

fn body_of(bytes: &[u8]) -> Vec<u8> {
    bytes[8..].to_vec()
}

#[test]
fn bind_request_parses() {
    let mut o = EventOut::new();
    o.send(
        ObjectId(2),
        0,
        &vec![Arg::Uint(3), Arg::Text("wl_compositor".to_owned()), Arg::Uint(6), Arg::Object(ObjectId(4))],
    );
    let mut fds = Vec::new();
    let args = match dispatch(Interface::WlRegistry, 1, 0, &body_of(&o.bytes), &mut fds) {
        Ok(a) => a,
        Err(_) => panic!("bind did not parse"),
    };
    assert_eq!(args.len(), 4);
    assert!(matches!(args[0], Arg::Uint(3)));
    assert!(matches!(&args[1], Arg::Text(t) if t == "wl_compositor"));
    assert!(matches!(args[2], Arg::Uint(6)));
    assert!(matches!(args[3], Arg::NewId(ObjectId(4))));
}

fn refusal(i: Interface, opcode: u32, body: Vec<u8>) -> DispatchError {
    let mut fds = Vec::new();
    match dispatch(i, 1, opcode, &body, &mut fds) {
        Ok(_) => panic!("the request was accepted"),
        Err(e) => e,
    }
}

#[test]
fn trailing_data_rejected() {
    let body = 7u32.to_ne_bytes().repeat(2);
    let err = refusal(Interface::WlDisplay, 0, body);
    assert!(matches!(err, DispatchError::Wire(WireError::TrailingData)));
}

#[test]
fn truncated_body_rejected() {
    let err = refusal(Interface::WlDisplay, 0, Vec::new());
    assert!(matches!(err, DispatchError::Wire(WireError::Truncated)));
}

#[test]
fn empty_required_string_rejected() {
    // bind with a zero-length interface string
    let mut body = Vec::new();
    body.extend(3u32.to_ne_bytes());
    body.extend(0u32.to_ne_bytes());
    body.extend(6u32.to_ne_bytes());
    body.extend(4u32.to_ne_bytes());
    let err = refusal(Interface::WlRegistry, 0, body);
    assert!(matches!(err, DispatchError::Wire(WireError::BadString)));
}

/// An interface of version 3 with every type of argument and a newer request.
fn test_iface() -> Vec<Message> {
    vec![
        Message { name: "all_types", since: 1, args: "iufosSah" },
        Message { name: "newer", since: 3, args: "u" },
    ]
}

fn all_types() -> Vec<u8> {
    let mut o = EventOut::new();
    o.send(
        ObjectId(3),
        0,
        &vec![
            Arg::Int(-5),
            Arg::Uint(7),
            Arg::Fixed(Fixed::from_int(2)),
            Arg::Object(ObjectId(11)),
            Arg::Text("hi".to_owned()),
            Arg::OptText(None),
            Arg::Array(vec![1, 2, 3]),
        ],
    );
    body_of(&o.bytes)
}

#[test]
fn all_types_roundtrip_through_dispatch() {
    let mut fds = vec![44u32];
    let args = match dispatch_by(&test_iface(), 3, 0, &all_types(), &mut fds) {
        Ok(a) => a,
        Err(_) => panic!("the request was refused"),
    };
    assert_eq!(args.len(), 8);
    assert!(matches!(args[0], Arg::Int(-5)));
    assert!(matches!(args[1], Arg::Uint(7)));
    assert!(matches!(args[2], Arg::Fixed(f) if f == Fixed::from_int(2)));
    assert!(matches!(args[3], Arg::Object(ObjectId(11))));
    assert!(matches!(&args[4], Arg::Text(t) if t == "hi"));
    assert!(matches!(args[5], Arg::OptText(None)));
    assert!(matches!(&args[6], Arg::Array(a) if *a == [1, 2, 3]));
    assert!(matches!(args[7], Arg::Fd(44)));
    assert!(fds.is_empty());
}

#[test]
fn since_gates_dispatch_by_bound_version() {
    let body = 9u32.to_ne_bytes().to_vec();
    let newer = 1;

    let mut fds = Vec::new();
    let old = dispatch_by(&test_iface(), 2, newer, &body, &mut fds);
    assert!(matches!(old, Err(DispatchError::UnknownOpcode(_))));

    let args = match dispatch_by(&test_iface(), 3, newer, &body, &mut fds) {
        Ok(a) => a,
        Err(_) => panic!("the request was refused"),
    };
    assert!(matches!(args[0], Arg::Uint(9)));
}

#[test]
fn event_fds_ride_the_side_channel() {
    let mut o = EventOut::new();
    o.send(ObjectId(1), 0, &vec![Arg::Fd(9), Arg::Uint(1)]);
    // fds never contribute wire bytes
    assert_eq!(o.bytes.len(), 12);
    assert_eq!(o.fds.len(), 1);
}

#[test]
fn missing_fd_is_an_error() {
    let mut fds = Vec::new();
    let err = parse("iufosSah", &all_types(), &mut fds);
    assert!(matches!(err, Err(WireError::MissingFd)));
}

#[test]
fn text_that_is_not_utf8_is_rejected() {
    let mut body = Vec::new();
    body.extend(3u32.to_ne_bytes());
    body.extend([0xff, 0xfe, 0, 0]);
    let mut fds = Vec::new();
    assert!(matches!(parse("s", &body, &mut fds), Err(WireError::BadString)));
}

#[test]
fn nullable_text_keeps_its_value() {
    let mut o = EventOut::new();
    o.send(ObjectId(1), 0, &vec![Arg::OptText(Some("text/plain".to_owned()))]);
    let mut fds = Vec::new();
    let args = parse("S", &body_of(&o.bytes), &mut fds);
    assert!(matches!(&args, Ok(a) if matches!(&a[0], Arg::OptText(Some(t)) if t == "text/plain")));
}

#[test]
fn unknown_opcodes_and_malformed_requests_are_described() {
    let err = refusal(Interface::WlDisplay, 7, Vec::new());
    assert_eq!(err.message(), "unknown opcode 7");
    let err = refusal(Interface::WlDisplay, 0, Vec::new());
    assert!(err.message().starts_with("malformed request: "));
    assert_eq!(DispatchError::Handler("no such global".to_owned()).message(), "no such global");
}

#[test]
fn window_states_go_out_as_words() {
    let mut o = EventOut::new();
    Sent { client: 1, object: ObjectId(8), event: Event::FtlState { activated: true, fullscreen: true } }.write(&mut o);
    let mut want = Vec::new();
    want.extend(8u32.to_ne_bytes());
    want.extend((20u32 << 16 | 4).to_ne_bytes());
    want.extend(8u32.to_ne_bytes());
    want.extend(2u32.to_ne_bytes());
    want.extend(3u32.to_ne_bytes());
    assert_eq!(o.bytes, want);
}

#[test]
fn every_event_keeps_to_its_declared_arguments() {
    let e = Event::DndEnter { serial: 1, surface: ObjectId(10), x: Fixed(512), y: Fixed(-256), id: ObjectId(20) };
    let row = &events(Interface::WlDataDevice)[e.opcode() as usize];
    assert_eq!(row.name, "enter");
    assert_eq!(row.args.len(), e.args().len());
}

#[test]
fn ids_and_times_split() {
    assert!(ObjectId(0xff00_0000).is_server());
    assert!(!ObjectId(0xfeff_ffff).is_server());
    assert_eq!(ObjectId(7).text(), "#7");
    assert_eq!(Fixed::from_int(-3), Fixed(-768));
    let t = stamp((0x1_0000_0002 * 1_000_000_000) + 5);
    assert_eq!(t, Stamp { sec_hi: 1, sec_lo: 2, nsec: 5 });
}

#[test]
fn an_unusable_object_is_reported_on_the_display() {
    let mut out = Out::new();
    out.invalid_object(3, ObjectId(42));
    assert_eq!(out.sent.len(), 1);
    assert_eq!(out.sent[0].client, 3);
    assert_eq!(out.sent[0].object, ObjectId(1));
    assert!(matches!(&out.sent[0].event, Event::Error { object: ObjectId(1), code: 0, message } if message == "invalid object #42"));
}
