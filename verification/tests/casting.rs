use carrot::dbus::MsgBuilder;
use carrot::output::cursor::HeadCursor;
use carrot::output::Output;
use carrot::pipewire::client_node::{
    attend, create_request, decode_event, empty_io, kick, node_update, port_update, set_active, Attended, DataAt, MemPool,
    NodeEvent, SourceNode, CN_PORT_UPDATE, CN_SET_ACTIVE, CN_UPDATE, EV_CN_PORT_SET_IO, EV_CN_PORT_SET_PARAM,
    EV_CN_PORT_USE_BUFFERS, EV_CN_SET_ACTIVATION, EV_CN_TRANSPORT, EV_CORE_ADD_MEM, EV_CORE_BOUND_ID, EV_CORE_REMOVE_MEM,
};
use carrot::pipewire::pod::{
    put_choice, put_fraction, put_int, put_long, put_object, put_pod, put_prop, put_string, put_uint, PodError, PodParser,
    CHOICE_ENUM, T_FD, T_ID, T_STRUCT,
};
use carrot::pipewire::{
    core_info, global_tag, paint_bar, pattern_beat, probe, pump, registry_global, remote_error, socket_path, Beat, Fault, Frame, Probed, Pump,
    PwConn, PwError, CLIENT_UPDATE_PROPERTIES, CORE_CREATE_OBJECT, CORE_HELLO, CORE_SYNC, EV_CORE_DONE, EV_CORE_ERROR,
    EV_CORE_INFO, EV_CORE_PING, EV_REGISTRY_GLOBAL, PROBE_COOKIE, PROBE_REGISTRY,
};
use carrot::portal::cast::{
    begin, close_session, find_window, output_presented, output_source, refresh, resolve, shown_workspace, start,
    window_source, workspace_source, Cap, Cast, Desktop, Feed, NodeState, Pick, Resolved, RestoreData, Source, Window,
    COOKIE, PROXY_ID,
};
use carrot::portal::{
    remote_body, reply_response, serve_properties, serve_request, serve_session, start_reply, Refusal, Reply, Sessions,
    CURSOR_EMBEDDED, CURSOR_HIDDEN, R_ENDED,
};
use carrot::rect::Rect;

fn structure(build: impl Fn(&mut Vec<u8>)) -> Vec<u8> {
    let mut body = Vec::new();
    build(&mut body);
    let mut out = Vec::new();
    put_pod(&mut out, T_STRUCT, &body);
    out
}

fn frame(id: u32, opcode: u8, body: Vec<u8>) -> Frame {
    Frame { id, opcode, seq: 0, body, fds: Vec::new() }
}

// values on the wire

#[test]
fn values_are_padded_to_eight_bytes() {
    let mut out = Vec::new();
    put_int(&mut out, -2);
    assert_eq!(out, [4, 0, 0, 0, 4, 0, 0, 0, 0xfe, 0xff, 0xff, 0xff, 0, 0, 0, 0]);
    let mut out = Vec::new();
    put_string(&mut out, "hi");
    assert_eq!(out, [3, 0, 0, 0, 8, 0, 0, 0, b'h', b'i', 0, 0, 0, 0, 0, 0]);
    let mut out = Vec::new();
    put_long(&mut out, 0x0102_0304_0506_0708);
    assert_eq!(out, [8, 0, 0, 0, 5, 0, 0, 0, 8, 7, 6, 5, 4, 3, 2, 1]);
    let mut out = Vec::new();
    put_fraction(&mut out, 60, 1);
    assert_eq!(out, [8, 0, 0, 0, 11, 0, 0, 0, 60, 0, 0, 0, 1, 0, 0, 0]);
}

#[test]
fn values_come_back_as_written() {
    let body = structure(|b| {
        put_int(b, -7);
        put_string(b, "alsa");
        put_uint(b, 9);
    });
    let mut p = PodParser::new(&body);
    let mut s = match p.struct_() {
        Ok(s) => s,
        Err(_) => panic!("no struct"),
    };
    assert_eq!(s.signed(), Ok(-7));
    assert_eq!(s.string(), Ok(b"alsa".to_vec()));
    assert_eq!(s.uint(), Ok(9));
    assert!(s.done() && p.done());
    assert_eq!(s.signed(), Err(PodError::Truncated));
}

#[test]
fn a_value_of_another_type_is_refused() {
    let mut body = Vec::new();
    put_string(&mut body, "x");
    assert_eq!(PodParser::new(&body).signed(), Err(PodError::WrongType));
    let mut body = Vec::new();
    put_int(&mut body, 3);
    assert_eq!(PodParser::new(&body).fd(), Err(PodError::WrongType));
}

#[test]
fn choices_and_objects_hold_their_parts() {
    let mut out = Vec::new();
    put_choice(&mut out, CHOICE_ENUM, T_ID, &vec![8, 8]);
    let want: Vec<u8> = [24u32, 19, 3, 0, 4, 3, 8, 8].iter().flat_map(|w| w.to_le_bytes()).collect();
    assert_eq!(out, want);
    let mut props = Vec::new();
    put_prop(&mut props, 5);
    put_uint(&mut props, 1);
    let mut out = Vec::new();
    put_object(&mut out, 0x40003, 3, &props);
    assert_eq!(out[..16], [32, 0, 0, 0, 15, 0, 0, 0, 3, 0, 4, 0, 3, 0, 0, 0]);
}

// the connection

#[test]
fn frames_survive_being_split() {
    let mut tx = PwConn::new();
    let mut bytes = tx.sync(5);
    bytes.extend(tx.pong(1, 2));
    let mut rx = PwConn::new();
    for b in &bytes[..bytes.len() - 1] {
        rx.feed(&vec![*b], &Vec::new());
    }
    let first = rx.cut_frame().unwrap();
    assert_eq!((first.id, first.opcode, first.seq), (0, CORE_SYNC, 0));
    assert!(rx.cut_frame().is_none(), "one byte is missing");
    rx.feed(&vec![bytes[bytes.len() - 1]], &Vec::new());
    let second = rx.cut_frame().unwrap();
    assert_eq!(second.seq, 1);
    assert!(rx.cut_frame().is_none());
}

#[test]
fn requests_count_up() {
    let mut c = PwConn::new();
    let m = c.send(4, 2, &vec![1, 2, 3, 4, 5, 6, 7, 8]);
    assert_eq!(m[..16], [4, 0, 0, 0, 8, 0, 0, 2, 0, 0, 0, 0, 0, 0, 0, 0]);
    let m = c.get_registry(2);
    assert_eq!(m[8], 1);
    let (hello, update) = PwConn::new().hello();
    assert_eq!((hello[7], hello[8]), (CORE_HELLO, 0));
    assert_eq!((update[7], update[8]), (CLIENT_UPDATE_PROPERTIES, 1));
}

#[test]
fn the_socket_is_looked_for_in_order() {
    let s = |t: &str| Some(t.to_owned());
    assert!(matches!(socket_path(s("/pw"), s("/run"), None), Ok(p) if p == "/pw/pipewire-0"));
    assert!(matches!(socket_path(None, s("/run"), s("other")), Ok(p) if p == "/run/other"));
    assert!(matches!(socket_path(None, None, None), Err(PwError::Env(Fault::NoRuntimeDir))));
    assert!(!Fault::NoRuntimeDir.message().is_empty());
}

#[test]
fn the_pump_answers_pings_and_notices_the_end() {
    let two = |a, b| {
        structure(move |o| {
            put_int(o, a);
            put_int(o, b);
        })
    };
    assert!(matches!(pump(&frame(0, EV_CORE_PING, two(3, 4)), None), Ok(Pump::Pong { id: 3, seq: 4 })));
    assert!(matches!(pump(&frame(0, EV_CORE_DONE, two(0, 9)), Some(9)), Ok(Pump::Done)));
    assert!(matches!(pump(&frame(0, EV_CORE_DONE, two(0, 8)), Some(9)), Ok(Pump::Continue)));
    assert!(matches!(pump(&frame(0, EV_CORE_ERROR, Vec::new()), None), Ok(Pump::Fail)));
    assert!(matches!(pump(&frame(5, EV_CORE_PING, Vec::new()), None), Ok(Pump::Continue)));
    assert!(matches!(pump(&frame(0, EV_CORE_PING, Vec::new()), None), Err(PodError::Truncated)));
}

#[test]
fn bodies_are_read_field_by_field() {
    let body = structure(|o| {
        put_int(o, 4);
        put_int(o, 1);
        put_int(o, -2);
        put_string(o, "no node");
    });
    let e = remote_error(&body).unwrap();
    assert_eq!((e.object, e.result), (4, -2));
    assert_eq!(e.message, b"no node");
    let body = structure(|o| {
        put_int(o, 0);
        put_int(o, 77);
        put_string(o, "me");
        put_string(o, "host");
        put_string(o, "1.2");
        put_string(o, "pipewire-0");
    });
    let i = core_info(&body).unwrap();
    assert_eq!((i.user, i.host, i.version, i.name), (b"me".to_vec(), b"host".to_vec(), b"1.2".to_vec(), b"pipewire-0".to_vec()));
    assert!(core_info(&structure(|o| put_int(o, 1))).is_err());
}

#[test]
fn globals_carry_their_properties() {
    let dict = structure(|o| {
        put_int(o, 1);
        put_string(o, "node.name");
        put_string(o, "carrot");
    });
    let mut id = Vec::new();
    put_uint(&mut id, 30);
    let body = structure(|o| {
        o.extend(&id);
        put_uint(o, 0);
        put_string(o, "PipeWire:Interface:Node");
        put_uint(o, 3);
        o.extend(&dict);
    });
    let g = registry_global(&body).unwrap();
    assert_eq!((g.id, g.version), (30, 3));
    assert_eq!(g.props.len(), 1);
    assert_eq!(global_tag(&g.props, &vec![b"a".to_vec(), b"node.name".to_vec()]), Some(0));
    assert_eq!(global_tag(&g.props, &vec![b"a".to_vec()]), None);
}

#[test]
fn the_test_pattern_moves() {
    let mut a = vec![0u8; 64 * 4 * 4];
    let mut b = a.clone();
    paint_bar(&mut a, 256, 64, 4, 0);
    paint_bar(&mut b, 256, 64, 4, 3);
    assert!(a != b);
}

#[test]
fn the_test_pattern_keeps_its_pace() {
    let s = 1_000_000_000u64;
    assert_eq!(pattern_beat(5, 5, None, 30, 2, true), Beat::Begin { due: 5 + 33_333_333 });
    assert_eq!(pattern_beat(5, 5 + 2 * s - 1, None, 25, 2, true), Beat::Begin { due: 5 + 2 * s - 1 + 40_000_000 });
    assert_eq!(pattern_beat(5, 5 + 2 * s, None, 30, 2, true), Beat::Over);
    assert_eq!(pattern_beat(5, 5, None, 30, 0, true), Beat::Over);
    assert_eq!(pattern_beat(5, 4, None, 1, 1, true), Beat::Begin { due: 4 + s }, "a clock that steps back");
    assert_eq!(pattern_beat(5, 99, Some(100), 30, 2, true), Beat::Wait);
    assert_eq!(pattern_beat(5, 100, Some(100), 30, 2, true), Beat::Paint);
    assert_eq!(pattern_beat(5, 100, Some(100), 30, 2, false), Beat::Skip);
    assert_eq!(pattern_beat(5, 5 + 3 * s, Some(100), 30, 2, true), Beat::Paint, "the frame had begun");
}

// the stream node

fn add_mem(id: u32) -> Frame {
    let body = structure(|o| {
        put_uint(o, id);
        let mut ty = Vec::new();
        ty.extend(2u32.to_le_bytes());
        put_pod(o, T_ID, &ty);
        let mut fd = Vec::new();
        fd.extend(0u64.to_le_bytes());
        put_pod(o, T_FD, &fd);
        put_int(o, 3);
    });
    Frame { id: 0, opcode: EV_CORE_ADD_MEM, seq: 0, body, fds: vec![Some(44)] }
}

#[test]
fn memory_windows_start_on_a_page() {
    let mut pool = MemPool::new();
    assert!(pool.map_window(1, 0, 8).is_err());
    assert_eq!(pool.add_block(1, 44, true), None);
    let w = pool.map_window(1, 5000, 100).unwrap();
    assert_eq!((w.start, w.delta, w.len), (4096, 904, 1004));
    assert_eq!(w.ptr(4), 908);
    assert_eq!(pool.add_block(1, 45, false), Some(44));
    assert_eq!(pool.remove_block(1), Some(45));
}

#[test]
fn the_node_follows_the_daemon() {
    let mut n = SourceNode::new(7, 64, 32, 30);
    assert!(!n.ready());
    assert!(matches!(decode_event(7, &add_mem(1)), Ok(NodeEvent::AddMem { id: 1, fd: 0, write: true })));
    assert!(matches!(n.handle(&mut add_mem(1)), Ok(_)));
    let bound = structure(|o| {
        put_uint(o, 7);
        put_uint(o, 91);
    });
    assert!(n.handle(&mut frame(0, EV_CORE_BOUND_ID, bound)).is_ok());
    assert_eq!(n.bound_global, Some(91));
    let io = structure(|o| {
        put_uint(o, 0);
        put_uint(o, 0);
        put_uint(o, 0);
        let mut ty = Vec::new();
        ty.extend(1u32.to_le_bytes());
        put_pod(o, T_ID, &ty);
        put_uint(o, 1);
        put_uint(o, 16);
        put_uint(o, 8);
    });
    assert!(matches!(decode_event(7, &frame(7, EV_CN_PORT_SET_IO, io.clone())), Ok(NodeEvent::SetIo { .. }) | Err(_)));
    let gone = structure(|o| put_uint(o, 1));
    assert!(n.handle(&mut frame(0, EV_CORE_REMOVE_MEM, gone)).is_ok());
    assert_eq!(n.released, vec![44]);
    assert!(matches!(decode_event(7, &frame(9, 3, Vec::new())), Ok(NodeEvent::Foreign)));
    assert!(n.produce(0).is_none(), "no io area");
}

fn put_id(o: &mut Vec<u8>, v: u32) {
    put_pod(o, T_ID, &v.to_le_bytes().to_vec());
}

fn put_fd(o: &mut Vec<u8>, index: i64) {
    put_pod(o, T_FD, &index.to_le_bytes().to_vec());
}

fn put_words(o: &mut Vec<u8>, words: &[u32]) {
    for w in words {
        put_uint(o, *w);
    }
}

#[test]
fn a_negotiated_port_produces() {
    let mut n = SourceNode::new(7, 4, 2, 30);
    assert!(matches!(n.handle(&mut add_mem(1)), Ok(true)));
    let format = structure(|o| {
        put_words(o, &[1, 0]);
        put_id(o, 4);
        put_words(o, &[0, 0]);
    });
    assert!(matches!(n.handle(&mut frame(7, EV_CN_PORT_SET_PARAM, format)), Ok(true)));
    assert!(n.format_set);
    let buffers = structure(|o| {
        put_words(o, &[1, 0, 0, 0, 3]);
        for k in 0..3u32 {
            put_words(o, &[1, 4096 * k + 8, 256, 2]);
            put_id(o, 9);
            put_uint(o, 5);
            put_id(o, 1);
            put_uint(o, 32);
            put_uint(o, 2);
            put_id(o, if k == 1 { 77 } else { 2 });
            put_words(o, &[1, 0, 64, 20]);
            put_id(o, 2);
            put_words(o, &[1, 0, 64, 20]);
        }
    });
    assert!(matches!(n.handle(&mut frame(7, EV_CN_PORT_USE_BUFFERS, buffers)), Ok(true)));
    assert_eq!(n.buffers.len(), 2, "one has no usable pixels");
    let b = n.buffers[0];
    assert_eq!((b.header, b.chunk, b.data_len), (Some(8), 40, 20));
    assert!(matches!(b.data, DataAt::Own { map } if map.delta == 64 && map.len == 84));
    let io = structure(|o| {
        put_words(o, &[1, 0, 0]);
        put_id(o, 1);
        put_words(o, &[1, 16, 8]);
    });
    assert!(matches!(n.handle(&mut frame(7, EV_CN_PORT_SET_IO, io)), Ok(true)));
    assert!(n.ready());
    let p = n.produce(u32::MAX).unwrap();
    assert_eq!((p.index, p.len, p.stride, p.seq), (0, 20, 16, 0));
    let p = n.produce(0).unwrap();
    assert_eq!((p.index, p.seq), (1, 1));
    assert_eq!(p.chunk(), [0, 0, 0, 0, 20, 0, 0, 0, 16, 0, 0, 0, 0, 0, 0, 0]);
    let mut header = vec![0; 8];
    header.extend([255; 8]);
    header.extend([0; 8]);
    header.extend([1, 0, 0, 0, 0, 0, 0, 0]);
    assert_eq!(p.header(), header);
    assert_eq!(p.io(), [2, 0, 0, 0, 1, 0, 0, 0]);
    assert_eq!(empty_io(), [0, 0, 0, 0, 255, 255, 255, 255]);
}

#[test]
fn empty_mappings_are_refused() {
    let mut n = SourceNode::new(7, 4, 2, 30);
    n.handle(&mut add_mem(1)).unwrap();
    let io = |offset: u32, size: u32| {
        frame(
            7,
            EV_CN_PORT_SET_IO,
            structure(|o| {
                put_words(o, &[1, 0, 0]);
                put_id(o, 1);
                put_words(o, &[1, offset, size]);
            }),
        )
    };
    assert!(matches!(n.handle(&mut io(16, 8)), Ok(true)));
    assert!(matches!(n.handle(&mut io(4096, 0)), Err(PwError::Io(22))));
    assert!(matches!(n.io, Some(m) if m.delta == 16), "unchanged");
    assert!(matches!(n.handle(&mut io(4100, 0)), Ok(true)), "the page it lies on is mapped");
    assert!(matches!(n.io, Some(m) if m.delta == 4 && m.len == 4));
}

#[test]
fn followers_come_and_go() {
    let mut n = SourceNode::new(7, 4, 2, 30);
    n.handle(&mut add_mem(1)).unwrap();
    let join = structure(|o| {
        put_uint(o, 40);
        put_fd(o, 0);
        put_words(o, &[1, 0, 64]);
    });
    let mut f = frame(7, EV_CN_SET_ACTIVATION, join.clone());
    assert!(matches!(n.handle(&mut f), Err(PwError::Env(Fault::ActivationWithoutFd))));
    f.fds = vec![Some(50)];
    assert!(matches!(n.handle(&mut f), Ok(true)));
    assert_eq!((f.fds[0], n.peers[&40].fd), (None, 50));
    let leave = structure(|o| {
        put_uint(o, 40);
        put_fd(o, -1);
    });
    assert!(matches!(n.handle(&mut frame(7, EV_CN_SET_ACTIVATION, leave)), Ok(true)));
    assert!(n.peers.is_empty());
    assert_eq!(n.released, vec![50]);
    let transport = structure(|o| {
        put_fd(o, 0);
        put_fd(o, 1);
        put_words(o, &[1, 0, 64]);
    });
    let mut f = frame(7, EV_CN_TRANSPORT, transport);
    f.fds = vec![Some(60), Some(61)];
    assert!(matches!(n.handle(&mut f), Ok(true)));
    assert_eq!((n.transport_read, n.activation.is_some(), f.fds[1]), (Some(60), true, Some(61)));
}

#[test]
fn a_node_is_created_in_four_frames() {
    let mut con = PwConn::new();
    con.seq = u32::MAX;
    let (n, out) = SourceNode::create(&mut con, 2, 640, 360, 30);
    assert_eq!((n.proxy_id, n.width, n.height, n.fps), (2, 640, 360, 30));
    assert_eq!(out.len(), 4);
    let ops: Vec<(u8, u8)> = out.iter().map(|m| (m[0], m[7])).collect();
    assert_eq!(ops, [(0, CORE_CREATE_OBJECT), (2, CN_UPDATE), (2, CN_PORT_UPDATE), (2, CN_SET_ACTIVE)]);
    assert_eq!(out[0][8..12], [255; 4]);
    assert_eq!(out[1][8..12], [0; 4]);
    assert_eq!(out[2][16..], port_update(640, 360, 30)[..]);
    assert_eq!(con.seq, 3);
}

#[test]
fn the_stream_is_attended() {
    let mut n = SourceNode::new(7, 4, 2, 30);
    assert!(matches!(attend(&mut n, &mut add_mem(1), None), Ok(Attended::Continue)));
    let two = |a, b| {
        structure(move |o| {
            put_int(o, a);
            put_int(o, b);
        })
    };
    assert!(matches!(attend(&mut n, &mut frame(0, EV_CORE_PING, two(3, 4)), None), Ok(Attended::Pong { id: 3, seq: 4 })));
    assert!(matches!(attend(&mut n, &mut frame(0, EV_CORE_DONE, two(0, 9)), Some(9)), Ok(Attended::Done)));
    assert!(matches!(attend(&mut n, &mut frame(0, EV_CORE_DONE, two(0, 9)), None), Ok(Attended::Continue)));
    let error = structure(|o| {
        put_words(o, &[4, 1, 2]);
        put_string(o, "no node");
    });
    match attend(&mut n, &mut frame(0, EV_CORE_ERROR, error), None) {
        Ok(Attended::Remote(e)) => assert_eq!((e.object, e.result, e.message), (4, 2, b"no node".to_vec())),
        _ => panic!("no error"),
    }
    assert!(matches!(attend(&mut n, &mut frame(0, EV_CORE_ERROR, vec![]), None), Err(PwError::Pod(PodError::Truncated))));
}

#[test]
fn a_probe_counts_globals() {
    let mut n: u32 = 0;
    let global = structure(|o| {
        put_words(o, &[30, 0]);
        put_string(o, "PipeWire:Interface:Node");
        put_uint(o, 3);
        let dict = structure(|d| {
            put_int(d, 2);
            put_string(d, "media.class");
            put_string(d, "Video/Source");
            put_string(d, "node.name");
            put_string(d, "carrot");
        });
        o.extend(&dict);
    });
    match probe(&frame(PROBE_REGISTRY, EV_REGISTRY_GLOBAL, global), &mut n) {
        Ok(Probed::Global(g, tag)) => assert_eq!((g.id, tag), (30, Some(1)), "the name comes before the class"),
        _ => panic!("no global"),
    }
    assert_eq!(n, 1);
    let core = structure(|o| {
        put_words(o, &[0, 77]);
        for t in ["me", "host", "1.2", "pipewire-0"] {
            put_string(o, t);
        }
    });
    assert!(matches!(probe(&frame(0, EV_CORE_INFO, core), &mut n), Ok(Probed::Core(i)) if i.version == b"1.2"));
    let done = structure(|o| {
        put_int(o, 0);
        put_int(o, PROBE_COOKIE);
    });
    assert!(matches!(probe(&frame(0, EV_CORE_DONE, done.clone()), &mut n), Ok(Probed::Over)));
    assert!(matches!(probe(&frame(0, EV_CORE_PING, done), &mut n), Ok(Probed::Pong { id: 0, seq: PROBE_COOKIE })));
    assert!(matches!(probe(&frame(9, 9, vec![]), &mut n), Ok(Probed::Other)));
    assert!(probe(&frame(0, EV_CORE_ERROR, vec![]), &mut n).is_err());
    assert_eq!(n, 1);
}

#[test]
fn the_last_dependency_wakes_a_peer() {
    assert_eq!(kick(1), (0, true));
    assert_eq!(kick(2), (1, false));
}

#[test]
fn the_node_describes_itself() {
    let set = set_active(true);
    let mut p = PodParser::new(&set);
    assert!(p.struct_().is_ok());
    assert!(p.done());
    for m in [port_update(64, 32, 30), node_update(), create_request(7)] {
        let mut p = PodParser::new(&m);
        assert!(p.struct_().is_ok());
        assert!(p.done());
    }
    assert!(port_update(64, 32, 30) != port_update(64, 32, 60));
}

// the portal

#[test]
fn replies_start_with_a_code() {
    assert_eq!(reply_response(0), [0; 8]);
    assert_eq!(reply_response(R_ENDED), [2, 0, 0, 0, 0, 0, 0, 0]);
    assert_eq!(remote_body(), [0, 0, 0, 0]);
}

#[test]
fn messages_align_their_values() {
    let mut b = MsgBuilder::new();
    b.put_str("ab");
    b.put_u32(7);
    assert_eq!(b.buf, [2, 0, 0, 0, b'a', b'b', 0, 0, 7, 0, 0, 0]);
    let mut b = MsgBuilder::new();
    let m = b.open_array(8);
    b.put_u32(1);
    b.put_i32(-1);
    b.close_array(m);
    assert_eq!(b.buf, [8, 0, 0, 0, 0, 0, 0, 0, 1, 0, 0, 0, 0xff, 0xff, 0xff, 0xff]);
}

#[test]
fn sessions_live_until_they_are_closed() {
    let mut s = Sessions::new();
    let mut casts = Vec::new();
    let call = |s: &mut Sessions, m: &str, o: Vec<(String, u32)>| s.serve_screencast(m, "/s/1".to_owned(), &o);
    assert!(matches!(call(&mut s, "SelectSources", Vec::new()), Reply::Refuse(Refusal::NoSession)));
    assert!(matches!(call(&mut s, "CreateSession", Vec::new()), Reply::Body(_)));
    assert!(matches!(call(&mut s, "Start", Vec::new()), Reply::Start { cursor: false }));
    let opts = vec![("types".to_owned(), 1), ("cursor_mode".to_owned(), CURSOR_EMBEDDED)];
    assert!(matches!(call(&mut s, "SelectSources", opts), Reply::Body(_)));
    assert!(matches!(call(&mut s, "Start", Vec::new()), Reply::Start { cursor: true }));
    assert!(matches!(call(&mut s, "OpenPipeWireRemote", Vec::new()), Reply::OpenRemote));
    assert!(matches!(call(&mut s, "Nonsense", Vec::new()), Reply::Refuse(Refusal::UnknownMethod)));
    casts.push(Cast::new("/s/1".to_owned(), screen(), false, 5));
    casts.push(Cast::new("/s/2".to_owned(), screen(), false, 6));
    assert!(serve_session(&mut s, &mut casts, "Close", "/s/1").is_ok());
    assert!(s.list.is_empty());
    assert_eq!(casts.len(), 1);
    assert_eq!(casts[0].session, "/s/2");
    assert!(serve_session(&mut s, &mut casts, "Open", "/s/2").is_err());
    assert!(serve_request("Close").is_ok());
    assert!(serve_request("Open").is_err());
    assert_eq!(CURSOR_HIDDEN, 1);
}

#[test]
fn properties_are_served_by_interface() {
    let iface = "org.freedesktop.impl.portal.ScreenCast";
    let v = serve_properties("Get", iface, "version").unwrap();
    assert_eq!(v, [1, b'u', 0, 0, 2, 0, 0, 0]);
    assert!(matches!(serve_properties("Get", "org.example", "version"), Err(Refusal::UnknownInterface)));
    assert!(matches!(serve_properties("Set", iface, "version"), Err(Refusal::UnknownMethod)));
    assert!(!Refusal::NoSession.name().is_empty());
    assert!(!Refusal::NoSession.text().is_empty());
}

fn head(name: &str, uid: u64, x: i32) -> Output {
    Output {
        uid,
        name: name.to_owned(),
        conn: 1,
        width: 800,
        height: 600,
        index: uid as usize - 1,
        global_name: 0,
        pos: (x, 0),
        ws: 0,
        usable: Rect { x1: 0, y1: 0, x2: 800, y2: 600 },
        vrefresh: Some(144),
        connected: true,
        dumb: false,
        front: 0,
        fbs: (0, 0),
        paused: false,
        flip_pending: false,
        anim_pending: false,
        ws_switch: None,
        cursor: HeadCursor {
            locked: false,
            client_hidden: false,
            theme: None,
            plane: None,
            rearm: false,
            generation: 0,
            textured: false,
        },
    }
}

fn desktop() -> Desktop {
    Desktop {
        outputs: vec![head("A", 1, 0), head("B", 2, 800)],
        bound: vec![0, 1, 0],
        windows: vec![Window {
            ident: 9,
            app_id: "editor".to_owned(),
            title: "notes".to_owned(),
            ws: Some(0),
            mapped: true,
            rect: Rect { x1: 10, y1: 20, x2: 210, y2: 120 },
        }],
        focused_output: 0,
        focused_window: Some(0),
    }
}

fn screen() -> Resolved {
    match output_source(&desktop(), "B") {
        Ok(r) => r,
        Err(_) => panic!("no output"),
    }
}

#[test]
fn sources_resolve_to_what_is_there() {
    let d = desktop();
    let r = screen();
    assert_eq!((r.width, r.height, r.fps, r.pos), (800, 600, 144, (800, 0)));
    assert_eq!(refresh(&d.outputs[0]), 144);
    assert!(matches!(output_source(&d, "C"), Ok(r) if matches!(&r.source, Source::Output(n) if n == "A")), "the focused one");
    let dark = Desktop { outputs: Vec::new(), ..desktop() };
    assert!(matches!(output_source(&dark, "A"), Err(PwError::Env(Fault::NoOutput))));
    assert!(workspace_source(&d, 1).is_ok());
    assert!(workspace_source(&d, 9).is_err());
    let w = window_source(&d, 0).unwrap_or_else(|_| panic!("no window"));
    assert_eq!((w.width, w.height), (200, 100));
    assert_eq!(find_window(&d, 1, "editor", "notes"), Some(0), "by its names");
    assert_eq!(find_window(&d, 9, "", ""), Some(0), "by its ident");
    assert!(matches!(resolve(&d, Pick::Ident(9)), Ok(r) if matches!(r.source, Source::Window { ident: 9, .. })));
    assert!(matches!(resolve(&d, Pick::Ident(4)), Err(PwError::Env(Fault::WindowGone))));
    assert_eq!(shown_workspace(&d, "A"), Some(0));
}

#[test]
fn a_cast_window_restores_to_itself() {
    let d = desktop();
    let r = window_source(&d, 0).unwrap_or_else(|_| panic!("no window"));
    let c = Cast::new("/s/1".to_owned(), r, true, 5);
    let token = c.restore_data();
    assert!(matches!(&token, RestoreData::Window { ident: 9, .. }));
    match resolve(&d, Pick::Restored(token)) {
        Ok(r) => assert!(matches!(r.source, Source::Window { ident: 9, .. })),
        Err(_) => panic!("the window was not found again"),
    }
    let body = start_reply(&Ok(c));
    assert_eq!(body[..4], [0, 0, 0, 0]);
    assert_eq!(start_reply(&Err(PwError::Closed)), reply_response(R_ENDED));
}

#[test]
fn casts_are_fed_at_their_rate() {
    let d = desktop();
    let mut c = Cast::new("/s/1".to_owned(), screen(), true, 5);
    let node = NodeState { width: 800, height: 600, ready: true };
    let waiting = NodeState { width: 800, height: 600, ready: false };
    assert!(matches!(c.feed(&d, "A", node, 1_000_000_000), Feed::Nothing), "another output");
    assert!(matches!(c.feed(&d, "B", waiting, 1_000_000_000), Feed::Nothing));
    assert!(matches!(c.feed(&d, "B", node, 1_000_000_000), Feed::Capture { cap: Cap::Out(1), width: 800, height: 600 }));
    c.fed(1_000_000_000);
    assert!(matches!(c.feed(&d, "B", node, 1_000_000_001), Feed::Nothing), "too soon");
    let mut grown = desktop();
    grown.outputs[1].width = 1024;
    assert!(matches!(c.feed(&grown, "B", node, 2_000_000_000), Feed::Resize { width: 1024, height: 600 }));
    assert!(matches!(c.feed(&grown, "B", node, 2_000_000_000), Feed::Nothing), "asked once");
    let mut casts = vec![c];
    let feeds = output_presented(&mut casts, &d, "B", &vec![node], 3_000_000_000);
    assert_eq!(feeds.len(), 1);
    close_session(&mut casts, "/s/1");
    assert!(casts.is_empty());
}

#[test]
fn a_cast_goes_live_once_its_node_is_bound() {
    let mut con = PwConn::new();
    con.seq = u32::MAX;
    let (node, out) = begin(&mut con, &screen());
    assert_eq!((node.proxy_id, node.width, node.height, node.fps), (PROXY_ID, 800, 600, 144));
    let ops: Vec<(u8, u8)> = out.iter().map(|m| (m[0], m[7])).collect();
    assert_eq!(
        ops,
        [
            (0, CORE_HELLO),
            (1, CLIENT_UPDATE_PROPERTIES),
            (0, CORE_CREATE_OBJECT),
            (2, CN_UPDATE),
            (2, CN_PORT_UPDATE),
            (2, CN_SET_ACTIVE),
            (0, CORE_SYNC),
        ]
    );
    assert_eq!(out[0][8..12], [255; 4]);
    assert_eq!(out[6][8..12], [5, 0, 0, 0]);
    assert_eq!(out[6][48..52], COOKIE.to_le_bytes());
    assert_eq!(con.seq, 6);
    let mut casts = Vec::new();
    let unbound = start(&mut casts, "/s/1".to_owned(), screen(), false, None);
    assert!(matches!(unbound, Err(PwError::Env(Fault::NeverBound))));
    assert!(casts.is_empty());
    assert!(start(&mut casts, "/s/1".to_owned(), screen(), true, Some(41)).is_ok());
    assert_eq!((casts[0].node_id, casts[0].frame_ns, casts[0].resize_target), (41, 6_944_444, (800, 600)));
    assert!(casts[0].cursor && !casts[0].dead);
}

#[test]
fn a_cast_ends_with_its_source() {
    let d = desktop();
    let gone = Desktop { windows: Vec::new(), bound: Vec::new(), ..desktop() };
    let node = NodeState { width: 200, height: 100, ready: true };
    let window = window_source(&d, 0).unwrap_or_else(|_| panic!("no window"));
    let space = workspace_source(&d, 2).unwrap_or_else(|_| panic!("no workspace"));
    let mut casts = Vec::new();
    assert!(start(&mut casts, "/s/1".to_owned(), window, false, Some(1)).is_ok());
    assert!(start(&mut casts, "/s/2".to_owned(), space, false, Some(2)).is_ok());
    assert!(start(&mut casts, "/s/3".to_owned(), screen(), false, Some(3)).is_ok());
    let feeds = output_presented(&mut casts, &d, "A", &vec![node; 3], 1_000_000_000);
    assert_eq!(feeds, [Feed::Capture { cap: Cap::Win(9), width: 200, height: 100 }, Feed::Nothing, Feed::Nothing]);
    let feeds = output_presented(&mut casts, &gone, "A", &vec![node; 3], 2_000_000_000);
    assert_eq!(feeds, [Feed::Nothing; 3]);
    assert_eq!(casts.len(), 3);
    output_presented(&mut casts, &gone, "A", &vec![node; 3], 3_000_000_000);
    assert_eq!(casts.len(), 1);
    assert_eq!(casts[0].session, "/s/3");
}
