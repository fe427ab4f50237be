//! What is written on the media daemon's wire reads back as it was meant, and what a node
//! makes of it.
use crate::bytes::{bits_of, le32_spec, le64_spec, read64_le64, read64_spec};
use crate::output::{first_slot, first_slot_found, first_slot_is_lowest};
use crate::pipewire::client_node::{
    apply_spec, event_spec, handle_spec, map_spec, take_field, take_fields, Field, Handled, MemBlock, NodeEvent, NodeView,
    EV_CN_PORT_SET_IO, EV_CN_PORT_SET_PARAM, EV_CN_SET_ACTIVATION, EV_CN_TRANSPORT, EV_CORE_ADD_MEM, EV_CORE_BOUND_ID,
    EV_CORE_REMOVE_MEM, IO_BUFFERS, PARAM_FORMAT,
};
use crate::pipewire::pod::{
    int_pod, int_round_trips, pod_len, pod_spec, split_undoes_pod, string_pod, string_round_trips, struct_round_trips, take_fd,
    take_string, take_struct, take_word, word_round_trips, PodError, T_FD, T_ID, T_INT, T_STRING, T_STRUCT,
};
use crate::pipewire::{
    dict_spec, global_spec, has_key, info_spec, pairs_spec, pump_spec, remote_error_spec, strings_spec, tag_spec, two_ints_spec,
    Frame, Pump, EV_CORE_DONE, EV_CORE_ERROR, EV_CORE_PING,
};
use vstd::prelude::*;

verus! {

/// One field as it is written.
pub open spec fn field_pod(f: Field, v: u64) -> Seq<u8> {
    match f {
        Field::Num => pod_spec(T_INT, le32_spec(v as u32)),
        Field::Id => pod_spec(T_ID, le32_spec(v as u32)),
        Field::Fd => pod_spec(T_FD, le64_spec(v)),
    }
}

/// Fields as they are written, in order.
pub open spec fn written(fs: Seq<Field>, vs: Seq<u64>) -> Seq<u8>
    decreases fs.len(),
{
    if fs.len() == 0 {
        Seq::empty()
    } else {
        written(fs.drop_last(), vs) + field_pod(fs.last(), vs[fs.len() - 1])
    }
}

/// Numbers and ids are words.
pub open spec fn word_sized(fs: Seq<Field>, vs: Seq<u64>) -> bool {
    &&& vs.len() == fs.len()
    &&& forall|i: int| 0 <= i < fs.len() ==> #[trigger] fs[i] is Fd || vs[i] <= u32::MAX
}

proof fn field_reads_back(f: Field, v: u64, rest: Seq<u8>)
    requires
        f is Fd || v <= u32::MAX,
    ensures
        take_field(field_pod(f, v) + rest, f) == Ok::<(u64, Seq<u8>), PodError>((v, rest)),
{
    match f {
        Field::Num => word_round_trips(T_INT, v as u32, rest),
        Field::Id => word_round_trips(T_ID, v as u32, rest),
        Field::Fd => {
            split_undoes_pod(T_FD, le64_spec(v), rest);
            read64_le64(v, Seq::empty());
            assert(le64_spec(v) + Seq::<u8>::empty() =~= le64_spec(v));
        },
    }
}

/// Written fields read back, each with its value, and leave what follows.
pub proof fn fields_read_back(fs: Seq<Field>, vs: Seq<u64>, rest: Seq<u8>)
    requires
        word_sized(fs, vs),
    ensures
        take_fields(written(fs, vs) + rest, fs) == Ok::<(Seq<u64>, Seq<u8>), PodError>((vs, rest)),
    decreases fs.len(),
{
    if fs.len() == 0 {
        assert(written(fs, vs) + rest =~= rest);
        assert(vs =~= Seq::empty());
    } else {
        let front = fs.drop_last();
        let ws = vs.drop_last();
        let last = field_pod(fs.last(), vs[fs.len() - 1]);
        same_front(front, ws, vs);
        assert(written(fs, vs) + rest =~= written(front, ws) + (last + rest));
        assert forall|i: int| 0 <= i < front.len() implies #[trigger] front[i] is Fd || ws[i] <= u32::MAX by {
            assert(fs[i] is Fd || vs[i] <= u32::MAX);
        }
        fields_read_back(front, ws, last + rest);
        assert(fs[fs.len() - 1] is Fd || vs[fs.len() - 1] <= u32::MAX);
        field_reads_back(fs.last(), vs[fs.len() - 1], rest);
        assert(ws.push(vs[fs.len() - 1]) =~= vs);
    }
}

proof fn same_front(fs: Seq<Field>, a: Seq<u64>, b: Seq<u64>)
    requires
        fs.len() <= a.len() <= b.len(),
        forall|i: int| 0 <= i < a.len() ==> a[i] == b[i],
    ensures
        written(fs, a) == written(fs, b),
    decreases fs.len(),
{
    if fs.len() > 0 {
        same_front(fs.drop_last(), a, b);
    }
}

proof fn written_is_short(fs: Seq<Field>, vs: Seq<u64>)
    ensures
        written(fs, vs).len() <= 16 * fs.len(),
    decreases fs.len(),
{
    broadcast use pod_len;

    if fs.len() > 0 {
        written_is_short(fs.drop_last(), vs);
    }
}

/// The body of an event: a struct of fields, and more after them.
pub open spec fn event_body(fs: Seq<Field>, vs: Seq<u64>, more: Seq<u8>) -> Seq<u8> {
    pod_spec(T_STRUCT, written(fs, vs) + more)
}

proof fn bodies_read_back(fs: Seq<Field>, vs: Seq<u64>, more: Seq<u8>)
    requires
        word_sized(fs, vs),
        fs.len() <= 8,
        more.len() <= 0x1000_0000,
    ensures
        crate::pipewire::client_node::struct_fields(event_body(fs, vs, more), fs) == Ok::<(Seq<u64>, Seq<u8>), PodError>(
            (vs, more),
        ),
{
    written_is_short(fs, vs);
    struct_round_trips(written(fs, vs) + more, Seq::empty());
    assert(event_body(fs, vs, more) + Seq::<u8>::empty() =~= event_body(fs, vs, more));
    fields_read_back(fs, vs, more);
}

/// The events of the core that are about memory and ids read as they were written, whoever
/// the node is.
pub proof fn core_events_read_as_written(proxy: u32, id: u32, ty: u32, fd: u64, flags: u32, global: u32)
    ensures
        event_spec(
            proxy,
            0,
            EV_CORE_ADD_MEM,
            event_body(
                seq![Field::Num, Field::Id, Field::Fd, Field::Num],
                seq![id as u64, ty as u64, fd, flags as u64],
                Seq::empty(),
            ),
        ) == Ok::<NodeEvent, PodError>(NodeEvent::AddMem { id, fd, write: (flags / 2) % 2 == 1 }),
        event_spec(proxy, 0, EV_CORE_REMOVE_MEM, event_body(seq![Field::Num], seq![id as u64], Seq::empty())) == Ok::<
            NodeEvent,
            PodError,
        >(NodeEvent::RemoveMem { id }),
        event_spec(
            proxy,
            0,
            EV_CORE_BOUND_ID,
            event_body(seq![Field::Num, Field::Num], seq![id as u64, global as u64], Seq::empty()),
        ) == Ok::<NodeEvent, PodError>(NodeEvent::BoundId { local: id, global }),
{
    bodies_read_back(
        seq![Field::Num, Field::Id, Field::Fd, Field::Num],
        seq![id as u64, ty as u64, fd, flags as u64],
        Seq::empty(),
    );
    bodies_read_back(seq![Field::Num], seq![id as u64], Seq::empty());
    bodies_read_back(seq![Field::Num, Field::Num], seq![id as u64, global as u64], Seq::empty());
}

/// What is about another object is not for the node.
pub proof fn events_of_others_are_foreign(proxy: u32, other: u32, opcode: u8, body: Seq<u8>)
    requires
        other != 0 && other != proxy,
    ensures
        event_spec(proxy, other, opcode, body) == Ok::<NodeEvent, PodError>(NodeEvent::Foreign),
{
}

/// A format of the port, set or cleared, reads as it was written.
pub proof fn formats_read_as_written(proxy: u32, a: u32, b: u32, c: u32, param: Seq<u8>)
    requires
        proxy != 0,
        param.len() <= 0x1000_0000,
    ensures
        event_spec(
            proxy,
            proxy,
            EV_CN_PORT_SET_PARAM,
            event_body(
                seq![Field::Num, Field::Num, Field::Id, Field::Num],
                seq![a as u64, b as u64, PARAM_FORMAT as u64, c as u64],
                param,
            ),
        ) == Ok::<NodeEvent, PodError>(NodeEvent::Format { set: param.len() > 0 }),
{
    bodies_read_back(
        seq![Field::Num, Field::Num, Field::Id, Field::Num],
        seq![a as u64, b as u64, PARAM_FORMAT as u64, c as u64],
        param,
    );
}

/// An io area reads as it was written.
pub proof fn io_areas_read_as_written(proxy: u32, a: u32, b: u32, c: u32, io: u32, mem: u32, offset: u32, size: u32)
    requires
        proxy != 0,
    ensures
        event_spec(
            proxy,
            proxy,
            EV_CN_PORT_SET_IO,
            event_body(
                seq![Field::Num, Field::Num, Field::Num, Field::Id, Field::Num, Field::Num, Field::Num],
                seq![a as u64, b as u64, c as u64, io as u64, mem as u64, offset as u64, size as u64],
                Seq::empty(),
            ),
        ) == Ok::<NodeEvent, PodError>(NodeEvent::SetIo { io, mem, offset, size }),
{
    bodies_read_back(
        seq![Field::Num, Field::Num, Field::Num, Field::Id, Field::Num, Field::Num, Field::Num],
        seq![a as u64, b as u64, c as u64, io as u64, mem as u64, offset as u64, size as u64],
        Seq::empty(),
    );
}

/// A transport reads as it was written: the first descriptor is the one to wait on.
pub proof fn transports_read_as_written(proxy: u32, fd: u64, other: u64, mem: u32, offset: u32, size: u32)
    requires
        proxy != 0,
    ensures
        event_spec(
            proxy,
            proxy,
            EV_CN_TRANSPORT,
            event_body(
                seq![Field::Fd, Field::Fd, Field::Num, Field::Num, Field::Num],
                seq![fd, other, mem as u64, offset as u64, size as u64],
                Seq::empty(),
            ),
        ) == Ok::<NodeEvent, PodError>(NodeEvent::Transport { fd, mem, offset, size }),
{
    bodies_read_back(
        seq![Field::Fd, Field::Fd, Field::Num, Field::Num, Field::Num],
        seq![fd, other, mem as u64, offset as u64, size as u64],
        Seq::empty(),
    );
}

/// An activation reads as it was written, and one without a descriptor, a negative number, as
/// its end.
pub proof fn activations_read_as_written(proxy: u32, node: u32, fd: u64, gone: u64, mem: u32, offset: u32, size: u32)
    requires
        proxy != 0,
        fd < 0x8000_0000_0000_0000,
        gone >= 0x8000_0000_0000_0000,
    ensures
        event_spec(
            proxy,
            proxy,
            EV_CN_SET_ACTIVATION,
            event_body(
                seq![Field::Num, Field::Fd],
                seq![node as u64, fd],
                written(seq![Field::Num, Field::Num, Field::Num], seq![mem as u64, offset as u64, size as u64]),
            ),
        ) == Ok::<NodeEvent, PodError>(NodeEvent::Activation { node, fd, mem, offset, size }),
        event_spec(
            proxy,
            proxy,
            EV_CN_SET_ACTIVATION,
            event_body(seq![Field::Num, Field::Fd], seq![node as u64, gone], Seq::empty()),
        ) == Ok::<NodeEvent, PodError>(NodeEvent::DropActivation { node }),
{
    let three = seq![Field::Num, Field::Num, Field::Num];
    let place = seq![mem as u64, offset as u64, size as u64];
    written_is_short(three, place);
    bodies_read_back(seq![Field::Num, Field::Fd], seq![node as u64, fd], written(three, place));
    fields_read_back(three, place, Seq::empty());
    assert(written(three, place) + Seq::<u8>::empty() =~= written(three, place));
    assert(crate::pipewire::client_node::nums(3) =~= three);
    bodies_read_back(seq![Field::Num, Field::Fd], seq![node as u64, gone], Seq::empty());
}

/// Memory that the daemon adds can be mapped until it is removed; then its descriptor is
/// released, and nothing else of the node changed. A descriptor is taken out of the frame
/// that carried it, and one that is replaced is released.
pub proof fn added_memory_is_released_when_removed(n: NodeView, id: u32, slot: u64, write: bool, body: Seq<u8>, fds: Seq<Option<u64>>, got: u64)
    requires
        slot < fds.len(),
        fds[slot as int] == Some(got),
    ensures
        ({
            let a = apply_spec(n, NodeEvent::AddMem { id, fd: slot, write }, body, fds);
            let b = apply_spec(a.node, NodeEvent::RemoveMem { id }, body, a.fds);
            &&& a.result == Ok::<bool, crate::pipewire::PwError>(true)
            &&& a.node.blocks.contains_key(id) && a.node.blocks[id] == (MemBlock { fd: got, write })
            &&& a.fds == fds.update(slot as int, None)
            &&& n.blocks.contains_key(id) ==> a.node.released == n.released.push(n.blocks[id].fd)
            &&& !n.blocks.contains_key(id) ==> a.node.released == n.released
            &&& forall|x: u32, o: u32, s: u32|
                x != id ==> #[trigger] map_spec(a.node.blocks, x, o, s) == map_spec(n.blocks, x, o, s)
            &&& b.result == Ok::<bool, crate::pipewire::PwError>(true)
            &&& b.node == (NodeView { blocks: n.blocks.remove(id), released: a.node.released.push(got), ..n })
            &&& forall|o: u32, s: u32| (#[trigger] map_spec(b.node.blocks, id, o, s)) is Err
        }),
{
    let a = apply_spec(n, NodeEvent::AddMem { id, fd: slot, write }, body, fds);
    let b = apply_spec(a.node, NodeEvent::RemoveMem { id }, body, a.fds);
    assert(b.node.blocks =~= n.blocks.remove(id));
}

/// A peer's activation is kept with its descriptor until it is dropped; then that descriptor
/// is released. One whose memory cannot be mapped is not kept, and its descriptor is released
/// at once.
pub proof fn activations_are_released_when_dropped(
    n: NodeView,
    peer: u32,
    slot: u64,
    mem: u32,
    offset: u32,
    size: u32,
    body: Seq<u8>,
    fds: Seq<Option<u64>>,
    got: u64,
)
    requires
        slot < fds.len(),
        fds[slot as int] == Some(got),
        !n.peers.contains_key(peer),
    ensures
        ({
            let ev = NodeEvent::Activation { node: peer, fd: slot, mem, offset, size };
            let a = apply_spec(n, ev, body, fds);
            let b = apply_spec(a.node, NodeEvent::DropActivation { node: peer }, body, a.fds);
            &&& a.fds == fds.update(slot as int, None)
            &&& map_spec(n.blocks, mem, offset, size) matches Ok(m) ==> {
                &&& a.result == Ok::<bool, crate::pipewire::PwError>(true)
                &&& a.node.peers.contains_key(peer) && a.node.peers[peer].fd == got && a.node.peers[peer].mem == m
                &&& a.node.released == n.released
                &&& b.node == (NodeView { released: n.released.push(got), ..n })
            }
            &&& map_spec(n.blocks, mem, offset, size) is Err ==> {
                &&& a.result is Err
                &&& a.node == (NodeView { released: n.released.push(got), ..n })
            }
        }),
{
    let ev = NodeEvent::Activation { node: peer, fd: slot, mem, offset, size };
    let a = apply_spec(n, ev, body, fds);
    let b = apply_spec(a.node, NodeEvent::DropActivation { node: peer }, body, a.fds);
    if map_spec(n.blocks, mem, offset, size) is Ok {
        assert(b.node.peers =~= n.peers);
    }
}

/// A transport replaces the descriptor that is waited on and releases the old one; the record
/// follows where its memory is known, and stays else. The io area is set for buffers only, and
/// cleared by an id that names no memory. An id is taken only for the node's own proxy, and a
/// format once set stays set.
pub proof fn nodes_keep_what_they_are_told(
    n: NodeView,
    slot: u64,
    mem: u32,
    offset: u32,
    size: u32,
    io: u32,
    local: u32,
    global: u32,
    set: bool,
    body: Seq<u8>,
    fds: Seq<Option<u64>>,
)
    ensures
        ({
            let t = apply_spec(n, NodeEvent::Transport { fd: slot, mem, offset, size }, body, fds).node;
            &&& slot < fds.len() && fds[slot as int] is Some ==> t.transport_read == fds[slot as int] && t.released == (
            if n.transport_read is Some { n.released.push(n.transport_read->0) } else { n.released })
            &&& slot >= fds.len() ==> t.transport_read == n.transport_read && t.released == n.released
            &&& map_spec(n.blocks, mem, offset, size) matches Ok(m) ==> t.activation == Some(m)
            &&& map_spec(n.blocks, mem, offset, size) is Err ==> t.activation == n.activation
            &&& t.blocks == n.blocks && t.peers == n.peers && t.io == n.io && t.buffers == n.buffers
        }),
        ({
            let s = apply_spec(n, NodeEvent::SetIo { io, mem, offset, size }, body, fds);
            &&& io != IO_BUFFERS ==> s.node == n
            &&& io == IO_BUFFERS && mem == u32::MAX ==> s.node == (NodeView { io: None, ..n })
            &&& io == IO_BUFFERS && mem != u32::MAX ==> match map_spec(n.blocks, mem, offset, size) {
                Ok(m) => s.node == (NodeView { io: Some(m), ..n }) && s.result is Ok,
                Err(_) => s.node == n && s.result is Err,
            }
        }),
        apply_spec(n, NodeEvent::BoundId { local, global }, body, fds).node == (if local == n.proxy_id {
            NodeView { bound_global: Some(global), ..n }
        } else {
            n
        }),
        apply_spec(n, NodeEvent::Format { set }, body, fds).node.format_set <==> n.format_set || set,
        apply_spec(n, NodeEvent::Foreign, body, fds) == (Handled { node: n, fds, result: Ok(false) }),
        apply_spec(n, NodeEvent::Ignored, body, fds) == (Handled { node: n, fds, result: Ok(true) }),
{
}

/// A frame that cannot be read changes nothing and takes no descriptor.
pub proof fn malformed_frames_change_nothing(n: NodeView, id: u32, opcode: u8, body: Seq<u8>, fds: Seq<Option<u64>>)
    requires
        event_spec(n.proxy_id, id, opcode, body) is Err,
    ensures
        handle_spec(n, id, opcode, body, fds).node == n,
        handle_spec(n, id, opcode, body, fds).fds == fds,
        handle_spec(n, id, opcode, body, fds).result is Err,
{
}

proof fn pods_are_short(ty: u32, body: Seq<u8>)
    ensures
        pod_spec(ty, body).len() <= body.len() + 16,
{
    pod_len(ty, body);
}

proof fn two_ints_read_back(a: i32, b: i32)
    ensures
        two_ints_spec(pod_spec(T_STRUCT, int_pod(a) + int_pod(b))) == Ok::<(i32, i32), PodError>((a, b)),
{
    broadcast use pod_len;

    let s = int_pod(a) + int_pod(b);
    struct_round_trips(s, Seq::empty());
    assert(pod_spec(T_STRUCT, s) + Seq::<u8>::empty() =~= pod_spec(T_STRUCT, s));
    int_round_trips(a, int_pod(b));
    int_round_trips(b, Seq::empty());
    assert(int_pod(b) + Seq::<u8>::empty() =~= int_pod(b));
}

/// A ping is answered with its own id and number; a done event ends the wait just when it
/// carries the number that is waited for; an error ends the stream; what is about another
/// object, or waited for by nobody, goes by.
pub proof fn the_pump_answers_the_core(f: Frame, a: i32, b: i32, cookie: Option<i32>)
    requires
        f.body@ == pod_spec(T_STRUCT, int_pod(a) + int_pod(b)),
    ensures
        f.id == 0 && f.opcode == EV_CORE_PING ==> pump_spec(f, cookie) == Ok::<Pump, PodError>(Pump::Pong { id: a, seq: b }),
        f.id == 0 && f.opcode == EV_CORE_DONE ==> (pump_spec(f, cookie) == Ok::<Pump, PodError>(Pump::Done) <==> cookie == Some(b)),
        f.id == 0 && f.opcode == EV_CORE_ERROR ==> pump_spec(f, cookie) == Ok::<Pump, PodError>(Pump::Fail),
        f.id != 0 ==> pump_spec(f, cookie) == Ok::<Pump, PodError>(Pump::Continue),
        f.opcode > 3 ==> pump_spec(f, cookie) == Ok::<Pump, PodError>(Pump::Continue),
{
    two_ints_read_back(a, b);
}

/// An error of the daemon reads as it was written: which object, the result, the message.
#[verifier::spinoff_prover]
#[verifier::rlimit(100)]
pub proof fn remote_errors_read_as_written(object: i32, number: i32, result: i32, msg: Seq<u8>)
    requires
        msg.len() < 0x1000_0000,
    ensures
        remote_error_spec(pod_spec(T_STRUCT, int_pod(object) + (int_pod(number) + (int_pod(result) + string_pod(msg)))))
            == Ok::<(i32, i32, Seq<u8>), PodError>((object, result, msg)),
{
    let s3 = string_pod(msg);
    let s2 = int_pod(result) + s3;
    let s1 = int_pod(number) + s2;
    let s = int_pod(object) + s1;
    assert(s.len() <= u32::MAX) by {
        pods_are_short(T_INT, le32_spec(bits_of(object)));
        pods_are_short(T_INT, le32_spec(bits_of(number)));
        pods_are_short(T_INT, le32_spec(bits_of(result)));
        pods_are_short(T_STRING, msg.push(0));
    }
    struct_round_trips(s, Seq::empty());
    assert(pod_spec(T_STRUCT, s) + Seq::<u8>::empty() =~= pod_spec(T_STRUCT, s));
    int_round_trips(object, s1);
    int_round_trips(number, s2);
    int_round_trips(result, s3);
    string_round_trips(msg, Seq::empty());
    assert(s3 + Seq::<u8>::empty() =~= s3);
}

/// Strings as they are written, in order.
pub open spec fn strings_written(ts: Seq<Seq<u8>>) -> Seq<u8>
    decreases ts.len(),
{
    if ts.len() == 0 {
        Seq::empty()
    } else {
        strings_written(ts.drop_last()) + string_pod(ts.last())
    }
}

proof fn strings_read_back(ts: Seq<Seq<u8>>, rest: Seq<u8>)
    requires
        forall|i: int| 0 <= i < ts.len() ==> (#[trigger] ts[i]).len() < u32::MAX,
    ensures
        strings_spec(strings_written(ts) + rest, ts.len()) == Ok::<(Seq<Seq<u8>>, Seq<u8>), PodError>((ts, rest)),
    decreases ts.len(),
{
    if ts.len() == 0 {
        assert(strings_written(ts) + rest =~= rest);
        assert(ts =~= Seq::empty());
    } else {
        let front = ts.drop_last();
        let last = string_pod(ts.last());
        assert(strings_written(ts) + rest =~= strings_written(front) + (last + rest));
        strings_read_back(front, last + rest);
        assert(ts[ts.len() - 1].len() < u32::MAX);
        string_round_trips(ts.last(), rest);
        assert(front.push(ts.last()) =~= ts);
    }
}

/// The daemon's words about itself read as they were written: user, host, version, name.
pub proof fn core_info_reads_as_written(id: i32, cookie: i32, ts: Seq<Seq<u8>>)
    requires
        ts.len() == 4,
        forall|i: int| 0 <= i < ts.len() ==> (#[trigger] ts[i]).len() < u32::MAX,
        strings_written(ts).len() < 0x1000_0000,
    ensures
        info_spec(pod_spec(T_STRUCT, int_pod(id) + (int_pod(cookie) + strings_written(ts)))) == Ok::<Seq<Seq<u8>>, PodError>(ts),
{
    broadcast use pod_len;

    let s2 = strings_written(ts);
    let s1 = int_pod(cookie) + s2;
    let s = int_pod(id) + s1;
    struct_round_trips(s, Seq::empty());
    assert(pod_spec(T_STRUCT, s) + Seq::<u8>::empty() =~= pod_spec(T_STRUCT, s));
    int_round_trips(id, s1);
    int_round_trips(cookie, s2);
    strings_read_back(ts, Seq::empty());
    assert(s2 + Seq::<u8>::empty() =~= s2);
}

/// Keys and values as they are written, in order.
pub open spec fn pairs_written(ps: Seq<(Seq<u8>, Seq<u8>)>) -> Seq<u8>
    decreases ps.len(),
{
    if ps.len() == 0 {
        Seq::empty()
    } else {
        string_pod(ps[0].0) + (string_pod(ps[0].1) + pairs_written(ps.skip(1)))
    }
}

pub open spec fn short_pairs(ps: Seq<(Seq<u8>, Seq<u8>)>) -> bool {
    forall|i: int| 0 <= i < ps.len() ==> (#[trigger] ps[i]).0.len() < u32::MAX && ps[i].1.len() < u32::MAX
}

#[verifier::spinoff_prover]
#[verifier::rlimit(100)]
proof fn pairs_read_back(ps: Seq<(Seq<u8>, Seq<u8>)>, have: Seq<(Seq<u8>, Seq<u8>)>)
    requires
        short_pairs(ps),
    ensures
        pairs_spec(pairs_written(ps), ps.len(), have) == Ok::<Seq<(Seq<u8>, Seq<u8>)>, PodError>(have + ps),
    decreases ps.len(),
{
    if ps.len() == 0 {
        assert(have + ps =~= have);
    } else {
        let rest = pairs_written(ps.skip(1));
        assert(ps[0].0.len() < u32::MAX);
        string_round_trips(ps[0].0, string_pod(ps[0].1) + rest);
        string_round_trips(ps[0].1, rest);
        assert forall|i: int| 0 <= i < ps.skip(1).len() implies (#[trigger] ps.skip(1)[i]).0.len() < u32::MAX && ps.skip(1)[i].1.len()
            < u32::MAX by {
            assert(ps.skip(1)[i] == ps[i + 1]);
        }
        pairs_read_back(ps.skip(1), have.push(ps[0]));
        assert(have.push(ps[0]) + ps.skip(1) =~= have + ps);
        assert((ps[0].0, ps[0].1) == ps[0]);
    }
}

proof fn dicts_read_back(ps: Seq<(Seq<u8>, Seq<u8>)>)
    requires
        short_pairs(ps),
        ps.len() <= u32::MAX,
        pairs_written(ps).len() < 0x1000_0000,
    ensures
        dict_spec(pod_spec(T_STRUCT, pod_spec(T_INT, le32_spec(ps.len() as u32)) + pairs_written(ps))) == Ok::<
            Seq<(Seq<u8>, Seq<u8>)>,
            PodError,
        >(ps),
{
    let none = Seq::<u8>::empty();
    let inner = pod_spec(T_INT, le32_spec(ps.len() as u32)) + pairs_written(ps);
    let s4 = pod_spec(T_STRUCT, inner);
    pods_are_short(T_INT, le32_spec(ps.len() as u32));
    struct_round_trips(inner, none);
    assert(s4 + none =~= s4);
    word_round_trips(T_INT, ps.len() as u32, pairs_written(ps));
    pairs_read_back(ps, Seq::empty());
    assert(Seq::<(Seq<u8>, Seq<u8>)>::empty() + ps =~= ps);
}

proof fn global_in_steps(
    body: Seq<u8>,
    s: Seq<u8>,
    s1: Seq<u8>,
    s2: Seq<u8>,
    s3: Seq<u8>,
    s4: Seq<u8>,
    id: u32,
    perms: u32,
    ty: Seq<u8>,
    version: u32,
    ps: Seq<(Seq<u8>, Seq<u8>)>,
)
    requires
        take_struct(body) == Ok::<(Seq<u8>, Seq<u8>), PodError>((s, Seq::empty())),
        take_word(s, T_INT) == Ok::<(u32, Seq<u8>), PodError>((id, s1)),
        take_word(s1, T_INT) == Ok::<(u32, Seq<u8>), PodError>((perms, s2)),
        take_string(s2) == Ok::<(Seq<u8>, Seq<u8>), PodError>((ty, s3)),
        take_word(s3, T_INT) == Ok::<(u32, Seq<u8>), PodError>((version, s4)),
        dict_spec(s4) == Ok::<Seq<(Seq<u8>, Seq<u8>)>, PodError>(ps),
    ensures
        global_spec(body) == Ok::<(u32, Seq<u8>, u32, Seq<(Seq<u8>, Seq<u8>)>), PodError>((id, ty, version, ps)),
{
}

/// A global reads as it was written: its id, type, version and all its properties in order.
#[verifier::spinoff_prover]
#[verifier::rlimit(100)]
pub proof fn globals_read_as_written(id: u32, perms: u32, ty: Seq<u8>, version: u32, ps: Seq<(Seq<u8>, Seq<u8>)>)
    requires
        ty.len() < 0x1000_0000,
        short_pairs(ps),
        ps.len() <= u32::MAX,
        pairs_written(ps).len() < 0x1000_0000,
    ensures
        global_spec(
            pod_spec(
                T_STRUCT,
                pod_spec(T_INT, le32_spec(id)) + (pod_spec(T_INT, le32_spec(perms)) + (string_pod(ty) + (pod_spec(
                    T_INT,
                    le32_spec(version),
                ) + pod_spec(T_STRUCT, pod_spec(T_INT, le32_spec(ps.len() as u32)) + pairs_written(ps))))),
            ),
        ) == Ok::<(u32, Seq<u8>, u32, Seq<(Seq<u8>, Seq<u8>)>), PodError>((id, ty, version, ps)),
{
    let none = Seq::<u8>::empty();
    let inner = pod_spec(T_INT, le32_spec(ps.len() as u32)) + pairs_written(ps);
    let s4 = pod_spec(T_STRUCT, inner);
    let s3 = pod_spec(T_INT, le32_spec(version)) + s4;
    let s2 = string_pod(ty) + s3;
    let s1 = pod_spec(T_INT, le32_spec(perms)) + s2;
    let s = pod_spec(T_INT, le32_spec(id)) + s1;
    let body = pod_spec(T_STRUCT, s);
    assert(s.len() <= u32::MAX) by {
        pods_are_short(T_INT, le32_spec(ps.len() as u32));
        pods_are_short(T_STRUCT, inner);
        pods_are_short(T_INT, le32_spec(version));
        pods_are_short(T_STRING, ty.push(0));
        pods_are_short(T_INT, le32_spec(perms));
        pods_are_short(T_INT, le32_spec(id));
    }
    assert(take_struct(body) == Ok::<(Seq<u8>, Seq<u8>), PodError>((s, none))) by {
        struct_round_trips(s, none);
        assert(body + none =~= body);
    }
    assert(take_word(s, T_INT) == Ok::<(u32, Seq<u8>), PodError>((id, s1))) by {
        word_round_trips(T_INT, id, s1);
    }
    assert(take_word(s1, T_INT) == Ok::<(u32, Seq<u8>), PodError>((perms, s2))) by {
        word_round_trips(T_INT, perms, s2);
    }
    assert(take_string(s2) == Ok::<(Seq<u8>, Seq<u8>), PodError>((ty, s3))) by {
        string_round_trips(ty, s3);
    }
    assert(take_word(s3, T_INT) == Ok::<(u32, Seq<u8>), PodError>((version, s4))) by {
        word_round_trips(T_INT, version, s4);
    }
    dicts_read_back(ps);
    global_in_steps(body, s, s1, s2, s3, s4, id, perms, ty, version, ps);
}

/// A global is shown by the first of the tag keys that it has a property of, and by the first
/// property of that key; by none where it has none of them.
pub proof fn tags_go_by_the_order_of_the_keys(props: Seq<(Seq<u8>, Seq<u8>)>, keys: Seq<Seq<u8>>)
    ensures
        match tag_spec(props, keys) {
            Some(k) => 0 <= k < props.len() && exists|j: int|
                0 <= j < keys.len() && props[k].0 == #[trigger] keys[j] && (forall|i: int| 0 <= i < k ==> (#[trigger] props[i]).0
                    != keys[j]) && forall|m: int, i: int|
                    0 <= m < j && 0 <= i < props.len() ==> (#[trigger] props[i]).0 != #[trigger] keys[m],
            None => forall|m: int, i: int|
                0 <= m < keys.len() && 0 <= i < props.len() ==> (#[trigger] props[i]).0 != #[trigger] keys[m],
        },
    decreases keys.len(),
{
    if keys.len() > 0 {
        first_slot_is_lowest(props, has_key(keys[0]));
        let rest = keys.skip(1);
        assert forall|i: int| 0 <= i < props.len() implies has_key(keys[0])(#[trigger] props[i]) == (props[i].0 == keys[0]) by {}
        match first_slot(props, has_key(keys[0])) {
            Some(k) => {
                assert(props[k].0 == keys[0]);
            },
            None => {
                tags_go_by_the_order_of_the_keys(props, rest);
                match tag_spec(props, rest) {
                    Some(k) => {
                        let j = choose|j: int|
                            0 <= j < rest.len() && props[k].0 == #[trigger] rest[j] && (forall|i: int|
                                0 <= i < k ==> (#[trigger] props[i]).0 != rest[j]) && forall|m: int, i: int|
                                0 <= m < j && 0 <= i < props.len() ==> (#[trigger] props[i]).0 != #[trigger] rest[m];
                        assert(props[k].0 == keys[j + 1]);
                        assert forall|m: int, i: int| 0 <= m < j + 1 && 0 <= i < props.len() implies (#[trigger] props[i]).0
                            != #[trigger] keys[m] by {
                            if m > 0 {
                                assert(rest[m - 1] == keys[m]);
                            }
                        }
                    },
                    None => {
                        assert forall|m: int, i: int| 0 <= m < keys.len() && 0 <= i < props.len() implies (#[trigger] props[i]).0
                            != #[trigger] keys[m] by {
                            if m > 0 {
                                assert(rest[m - 1] == keys[m]);
                            }
                        }
                    },
                }
            },
        }
    }
}

} // verus!
