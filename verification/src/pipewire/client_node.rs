//! The pipewire client-node: a video source the graph can consume. The server
//! allocates memfd buffers out of its pool; the node fills them, marks the io
//! area, and kicks every peer's activation.
use crate::bytes::{le32_spec, le64_spec, put_all, put_le32, put_le64};
use crate::pipewire::pod::{
    bool_pod, choice_pod, id_pod, int_pod, long_pod, choice_pod_len, object_pod, pair_pod, pod_len, pod_spec, prop_key,
    put_bool, put_choice, put_fraction, put_id, put_int, put_long, put_object, put_pod, put_prop, put_rectangle,
    put_string, put_uint, string_pod, take_fd, take_struct, take_word, uint_pod, utf8_of, PodError, PodParser,
    CHOICE_ENUM, CHOICE_FLAGS, CHOICE_RANGE, T_FRACTION, T_ID, T_INT, T_RECTANGLE, T_STRUCT,
};
use crate::pipewire::{
    ascii_len, entry_pods, frame_spec, nth, pump, pump_spec, put_entry, remote_error, remote_error_spec, string_pod_len,
    Fault, Frame, Pump, PwConn, PwError, RemoteError, CORE_CREATE_OBJECT,
};
use std::collections::HashMap;
use vstd::prelude::*;

verus! {

pub const CN_UPDATE: u8 = 2;

pub const CN_PORT_UPDATE: u8 = 3;

pub const CN_SET_ACTIVE: u8 = 4;

pub const EV_CN_TRANSPORT: u8 = 0;

pub const EV_CN_SET_PARAM: u8 = 1;

pub const EV_CN_PORT_SET_PARAM: u8 = 7;

pub const EV_CN_PORT_USE_BUFFERS: u8 = 8;

pub const EV_CN_PORT_SET_IO: u8 = 9;

pub const EV_CN_SET_ACTIVATION: u8 = 10;

pub const EV_CORE_BOUND_ID: u8 = 5;

pub const EV_CORE_ADD_MEM: u8 = 6;

pub const EV_CORE_REMOVE_MEM: u8 = 7;

pub const CLIENT_NODE_VERSION: i32 = 4;

pub const PARAM_FORMAT: u32 = 4;

pub const META_HEADER: u32 = 1;

pub const DATA_MEM_PTR: u32 = 1;

pub const DATA_MEM_FD: u32 = 2;

pub const IO_BUFFERS: u32 = 1;

pub const STATUS_HAVE_DATA: u32 = 2;

pub const PAGE: u64 = 4096;

/// A memfd the server shared.
#[derive(Clone, Copy, Debug, PartialEq, Eq, Structural)]
pub struct MemBlock {
    pub fd: u64,
    pub write: bool,
}

/// The server's memfd pool.
pub struct MemPool {
    pub blocks: HashMap<u32, MemBlock>,
}

/// A window into a pool block. The mapping starts on a page, `delta` bytes
/// before the window.
#[derive(Clone, Copy, Debug, PartialEq, Eq, Structural)]
pub struct MemMap {
    pub fd: u64,
    pub write: bool,
    /// file offset of the mapping
    pub start: u64,
    pub delta: u64,
    /// length of the mapping
    pub len: u64,
}

impl MemMap {
    /// Where byte `off` of the window sits in the mapping.
    pub fn ptr(&self, off: u64) -> (r: u64)
        requires
            self.delta + off <= u64::MAX,
        ensures
            r == self.delta + off,
    {
        self.delta + off
    }

    pub open spec fn window(block: MemBlock, offset: u32, size: u32) -> MemMap {
        MemMap {
            fd: block.fd,
            write: block.write,
            start: (offset - offset % 4096) as u64,
            delta: (offset % 4096) as u64,
            len: (size + offset % 4096) as u64,
        }
    }
}

/// A mapping starts on a page and covers exactly the window's bytes.
pub proof fn windows_are_page_aligned(block: MemBlock, offset: u32, size: u32)
    ensures
        ({
            let m = MemMap::window(block, offset, size);
            &&& m.start % 4096 == 0
            &&& m.start + m.delta == offset
            &&& m.start + m.len == offset + size
        }),
{
}

/// The error number of an invalid argument.
pub const EINVAL: i32 = 22;

/// A window of a known block. A mapping of no bytes, which is an empty window at the start
/// of a page, is refused as the kernel refuses it.
pub open spec fn map_spec(blocks: Map<u32, MemBlock>, id: u32, offset: u32, size: u32) -> Result<MemMap, PwError> {
    if !blocks.contains_key(id) {
        Err(PwError::Env(Fault::UnknownMem))
    } else if size == 0 && offset % 4096 == 0 {
        Err(PwError::Io(EINVAL))
    } else {
        Ok(MemMap::window(blocks[id], offset, size))
    }
}

impl MemPool {
    pub fn new() -> (p: MemPool)
        ensures
            p.blocks@ == Map::<u32, MemBlock>::empty(),
    {
        MemPool { blocks: HashMap::new() }
    }

    /// Takes a block in. Returns the fd of a block it replaced.
    pub fn add_block(&mut self, id: u32, fd: u64, write: bool) -> (r: Option<u64>)
        ensures
            final(self).blocks@ == old(self).blocks@.insert(id, MemBlock { fd, write }),
            r is Some <==> old(self).blocks@.contains_key(id),
            r is Some ==> r->0 == old(self).blocks@[id].fd,
    {
        broadcast use vstd::std_specs::hash::group_hash_axioms;

        match self.blocks.insert(id, MemBlock { fd, write }) {
            Some(b) => Some(b.fd),
            None => None,
        }
    }

    /// Lets a block go. Returns its fd.
    pub fn remove_block(&mut self, id: u32) -> (r: Option<u64>)
        ensures
            final(self).blocks@ == old(self).blocks@.remove(id),
            r is Some <==> old(self).blocks@.contains_key(id),
            r is Some ==> r->0 == old(self).blocks@[id].fd,
    {
        broadcast use vstd::std_specs::hash::group_hash_axioms;

        match self.blocks.remove(&id) {
            Some(b) => Some(b.fd),
            None => None,
        }
    }

    /// The mapping for a window of a block.
    pub fn map_window(&self, id: u32, offset: u32, size: u32) -> (r: Result<MemMap, PwError>)
        ensures
            r == map_spec(self.blocks@, id, offset, size),
    {
        broadcast use vstd::std_specs::hash::group_hash_axioms;

        match self.blocks.get(&id) {
            None => Err(PwError::Env(Fault::UnknownMem)),
            Some(b) => {
                let delta: u64 = offset as u64 % PAGE;
                if size == 0 && delta == 0 {
                    return Err(PwError::Io(EINVAL));
                }
                Ok(
                    MemMap {
                        fd: b.fd,
                        write: b.write,
                        start: offset as u64 - delta,
                        delta,
                        len: size as u64 + delta,
                    },
                )
            },
        }
    }
}

/// No window is mapped with no bytes.
pub proof fn mappings_are_not_empty(blocks: Map<u32, MemBlock>, id: u32, offset: u32, size: u32)
    ensures
        map_spec(blocks, id, offset, size) matches Ok(m) ==> m.len > 0,
{
}

/// One field of an event's struct.
#[derive(Clone, Copy, Debug, PartialEq, Eq, Structural)]
pub enum Field {
    Num,
    Id,
    Fd,
}

pub open spec fn take_field(s: Seq<u8>, f: Field) -> Result<(u64, Seq<u8>), PodError> {
    match f {
        Field::Num => match take_word(s, T_INT) {
            Ok((v, rest)) => Ok((v as u64, rest)),
            Err(e) => Err(e),
        },
        Field::Id => match take_word(s, T_ID) {
            Ok((v, rest)) => Ok((v as u64, rest)),
            Err(e) => Err(e),
        },
        Field::Fd => take_fd(s),
    }
}

/// Reads fields in order; the first bad one decides the error.
pub open spec fn take_fields(s: Seq<u8>, fs: Seq<Field>) -> Result<(Seq<u64>, Seq<u8>), PodError>
    decreases fs.len(),
{
    if fs.len() == 0 {
        Ok((Seq::empty(), s))
    } else {
        match take_fields(s, fs.drop_last()) {
            Err(e) => Err(e),
            Ok((vs, rest)) => match take_field(rest, fs.last()) {
                Err(e) => Err(e),
                Ok((v, after)) => Ok((vs.push(v), after)),
            },
        }
    }
}

/// Every field takes at least a pod header, and words stay below 2^32.
proof fn fields_shrink(s: Seq<u8>, fs: Seq<Field>)
    ensures
        take_fields(s, fs) matches Ok((vs, rest)) ==> {
            &&& vs.len() == fs.len()
            &&& rest.len() + 8 * fs.len() <= s.len()
            &&& forall|i: int| 0 <= i < fs.len() && !(fs[i] is Fd) ==> #[trigger] vs[i] <= u32::MAX
        },
    decreases fs.len(),
{
    if fs.len() > 0 {
        fields_shrink(s, fs.drop_last());
        if let Ok((vs, rest)) = take_fields(s, fs) {
            let (vs0, rest0) = take_fields(s, fs.drop_last())->Ok_0;
            assert forall|i: int| 0 <= i < fs.len() && !(fs[i] is Fd) implies #[trigger] vs[i] <= u32::MAX by {
                if i < fs.len() - 1 {
                    assert(fs.drop_last()[i] == fs[i]);
                    assert(vs0[i] == vs[i]);
                }
            }
        }
    }
}

/// A failed prefix fails the whole, with the same error.
proof fn prefix_error(s: Seq<u8>, fs: Seq<Field>, n: int)
    requires
        0 <= n <= fs.len(),
        take_fields(s, fs.take(n)) is Err,
    ensures
        take_fields(s, fs) == Err::<(Seq<u64>, Seq<u8>), PodError>(take_fields(s, fs.take(n))->Err_0),
    decreases fs.len() - n,
{
    if n < fs.len() {
        assert(fs.take(n + 1).drop_last() =~= fs.take(n));
        prefix_error(s, fs, n + 1);
    } else {
        assert(fs.take(n) =~= fs);
    }
}

fn read_fields(p: &mut PodParser, fs: &Vec<Field>) -> (r: Result<Vec<u64>, PodError>)
    requires
        old(p).wf(),
    ensures
        final(p).wf(),
        match take_fields(old(p).rest(), fs@) {
            Ok((vs, rest)) => r matches Ok(v) && v@ == vs && final(p).rest() == rest && vs.len() == fs@.len(),
            Err(e) => r == Err::<Vec<u64>, PodError>(e),
        },
{
    let ghost s = p.rest();
    let mut out: Vec<u64> = Vec::new();
    for i in 0..fs.len()
        invariant
            p.wf(),
            s == old(p).rest(),
            out@.len() == i,
            take_fields(s, fs@.take(i as int)) == Ok::<(Seq<u64>, Seq<u8>), PodError>((out@, p.rest())),
    {
        assert(fs@.take(i + 1).drop_last() =~= fs@.take(i as int));
        let got: Result<u64, PodError> = match fs[i] {
            Field::Num => match p.uint() {
                Ok(v) => Ok(v as u64),
                Err(e) => Err(e),
            },
            Field::Id => match p.id() {
                Ok(v) => Ok(v as u64),
                Err(e) => Err(e),
            },
            Field::Fd => p.fd(),
        };
        match got {
            Ok(v) => {
                out.push(v);
            },
            Err(e) => {
                proof {
                    prefix_error(s, fs@, i + 1);
                }
                return Err(e);
            },
        }
    }
    assert(fs@.take(fs@.len() as int) =~= fs@);
    Ok(out)
}

/// Where a buffer's pixels are.
#[derive(Clone, Copy, Debug, PartialEq, Eq, Structural)]
pub enum DataAt {
    /// at this offset of the buffer's own block
    Block { at: u64 },
    /// in a mapping of their own
    Own { map: MemMap },
}

/// A buffer of the port: its block, and where the parts are in it.
#[derive(Clone, Copy, Debug, PartialEq, Eq, Structural)]
pub struct Buffer {
    pub mem: MemMap,
    /// offset of the header metadata, if it was negotiated
    pub header: Option<u64>,
    /// offset of the first data's chunk
    pub chunk: u64,
    pub data: DataAt,
    pub data_len: u64,
}

pub open spec fn up8(n: int) -> int {
    (n + 7) / 8 * 8
}

pub open spec fn meta_fields() -> Seq<Field> {
    seq![Field::Id, Field::Num]
}

pub open spec fn data_fields() -> Seq<Field> {
    seq![Field::Id, Field::Num, Field::Num, Field::Num, Field::Num]
}

pub open spec fn nums(n: nat) -> Seq<Field> {
    Seq::new(n, |i: int| Field::Num)
}

/// Walks `n` metadata entries from `off`: each is as long as it says, rounded up
/// to eight bytes; the last header entry is the header.
pub open spec fn metas_spec(s: Seq<u8>, n: nat, off: int, header: Option<int>) -> Result<(Seq<u8>, int, Option<int>), PodError>
    decreases n,
{
    if n == 0 {
        Ok((s, off, header))
    } else {
        match take_fields(s, meta_fields()) {
            Err(e) => Err(e),
            Ok((v, rest)) => metas_spec(
                rest,
                (n - 1) as nat,
                off + up8(v[1] as int),
                if v[0] == META_HEADER { Some(off) } else { header },
            ),
        }
    }
}

/// Where the first data entry puts the pixels.
pub open spec fn data_at_spec(blocks: Map<u32, MemBlock>, v: Seq<u64>) -> Result<Option<DataAt>, PwError> {
    if v[0] == DATA_MEM_PTR {
        Ok(Some(DataAt::Block { at: v[1] }))
    } else if v[0] == DATA_MEM_FD {
        match map_spec(blocks, v[1] as u32, v[3] as u32, v[4] as u32) {
            Ok(map) => Ok(Some(DataAt::Own { map })),
            Err(e) => Err(e),
        }
    } else {
        Ok(None)
    }
}

/// Walks `n` further data entries; only the first plane is used.
pub open spec fn skip_datas_spec(s: Seq<u8>, n: nat) -> Result<Seq<u8>, PwError>
    decreases n,
{
    if n == 0 {
        Ok(s)
    } else {
        match take_fields(s, data_fields()) {
            Err(e) => Err(PwError::Pod(e)),
            Ok((_, rest)) => skip_datas_spec(rest, (n - 1) as nat),
        }
    }
}

/// One buffer: its block, its metadata, its data entries. `None` for a buffer
/// without usable pixels.
pub open spec fn buffer_spec(blocks: Map<u32, MemBlock>, s: Seq<u8>) -> Result<(Option<Buffer>, Seq<u8>), PwError> {
    match take_fields(s, nums(3)) {
        Err(e) => Err(PwError::Pod(e)),
        Ok((m, s1)) => match map_spec(blocks, m[0] as u32, m[1] as u32, m[2] as u32) {
            Err(e) => Err(e),
            Ok(mem) => match take_fields(s1, nums(1)) {
                Err(e) => Err(PwError::Pod(e)),
                Ok((nm, s2)) => match metas_spec(s2, nm[0] as nat, 0, None) {
                    Err(e) => Err(PwError::Pod(e)),
                    Ok((s3, off, header)) => match take_fields(s3, nums(1)) {
                        Err(e) => Err(PwError::Pod(e)),
                        Ok((nd, s4)) => if nd[0] == 0 {
                            Ok((None, s4))
                        } else {
                            match take_fields(s4, data_fields()) {
                                Err(e) => Err(PwError::Pod(e)),
                                Ok((v, s5)) => match data_at_spec(blocks, v) {
                                    Err(e) => Err(e),
                                    Ok(at) => match skip_datas_spec(s5, (nd[0] - 1) as nat) {
                                        Err(e) => Err(e),
                                        Ok(s6) => Ok(
                                            (
                                                match at {
                                                    None => None,
                                                    Some(data) => Some(
                                                        Buffer {
                                                            mem,
                                                            header: match header {
                                                                Some(h) => Some(h as u64),
                                                                None => None,
                                                            },
                                                            chunk: off as u64,
                                                            data,
                                                            data_len: v[4],
                                                        },
                                                    ),
                                                },
                                                s6,
                                            ),
                                        ),
                                    },
                                },
                            }
                        },
                    },
                },
            },
        },
    }
}

/// `n` buffers in a row; those without usable pixels are left out.
pub open spec fn buffers_spec(blocks: Map<u32, MemBlock>, s: Seq<u8>, n: nat, have: Seq<Buffer>) -> Result<Seq<Buffer>, PwError>
    decreases n,
{
    if n == 0 {
        Ok(have)
    } else {
        match buffer_spec(blocks, s) {
            Err(e) => Err(e),
            Ok((b, rest)) => buffers_spec(blocks, rest, (n - 1) as nat, match b {
                Some(b) => have.push(b),
                None => have,
            }),
        }
    }
}

/// The body of a use-buffers event: direction, port, mix, flags, then the buffers.
pub open spec fn use_buffers_spec(blocks: Map<u32, MemBlock>, body: Seq<u8>) -> Result<Seq<Buffer>, PwError> {
    match take_struct(body) {
        Err(e) => Err(PwError::Pod(e)),
        Ok((s, _)) => match take_fields(s, nums(5)) {
            Err(e) => Err(PwError::Pod(e)),
            Ok((h, rest)) => buffers_spec(blocks, rest, h[4] as nat, Seq::empty()),
        },
    }
}

fn num_fields(n: usize) -> (r: Vec<Field>)
    ensures
        r@ == nums(n as nat),
{
    let mut v: Vec<Field> = Vec::new();
    for i in 0..n
        invariant
            v@ == nums(i as nat),
    {
        v.push(Field::Num);
        assert(v@ =~= nums((i + 1) as nat));
    }
    v
}

fn data_field_list() -> (r: Vec<Field>)
    ensures
        r@ == data_fields(),
{
    let mut v: Vec<Field> = Vec::new();
    v.push(Field::Id);
    v.push(Field::Num);
    v.push(Field::Num);
    v.push(Field::Num);
    v.push(Field::Num);
    assert(v@ =~= data_fields());
    v
}

/// Offsets grow by at most 2^30 per byte of event read.
spec fn off_bounded(off: int, total: nat, left: nat) -> bool {
    0 <= off <= (total - left) * 0x4000_0000
}

fn read_metas(p: &mut PodParser, n: u32, total: Ghost<nat>) -> (r: Result<(u64, Option<u64>), PodError>)
    requires
        old(p).wf(),
        old(p).rest().len() <= total@,
        total@ <= 0x100_0000,
    ensures
        final(p).wf(),
        match metas_spec(old(p).rest(), n as nat, 0, None) {
            Err(e) => r == Err::<(u64, Option<u64>), PodError>(e),
            Ok((rest, off, header)) => {
                &&& r is Ok
                &&& final(p).rest() == rest
                &&& r->Ok_0.0 == off
                &&& 0 <= off <= 0x100_0000 * 0x4000_0000
                &&& match header {
                    Some(h) => r->Ok_0.1 == Some(h as u64) && 0 <= h <= 0x100_0000 * 0x4000_0000,
                    None => r->Ok_0.1 is None,
                }
                &&& rest.len() <= old(p).rest().len()
            },
        },
{
    let mut fs: Vec<Field> = Vec::new();
    fs.push(Field::Id);
    fs.push(Field::Num);
    assert(fs@ =~= meta_fields());
    let ghost s0 = p.rest();
    let mut off: u64 = 0;
    let mut header: Option<u64> = None;
    let ghost mut mark: Option<int> = None;
    let mut left: u32 = n;
    while left > 0
        invariant
            p.wf(),
            fs@ == meta_fields(),
            total@ <= 0x100_0000,
            s0 == old(p).rest(),
            s0.len() <= total@,
            p.rest().len() <= s0.len(),
            off_bounded(off as int, total@, p.rest().len()),
            metas_spec(s0, n as nat, 0, None) == metas_spec(p.rest(), left as nat, off as int, mark),
            match mark {
                Some(h) => header == Some(h as u64) && 0 <= h <= 0x100_0000 * 0x4000_0000,
                None => header is None,
            },
        decreases left,
    {
        let ghost before = p.rest();
        proof {
            fields_shrink(before, meta_fields());
        }
        match read_fields(p, &fs) {
            Err(e) => {
                return Err(e);
            },
            Ok(v) => {
                proof {
                    assert(!(meta_fields()[1] is Fd));
                    assert(v@[1] <= u32::MAX);
                    if v@[0] == META_HEADER {
                        mark = Some(off as int);
                    }
                }
                if v[0] == META_HEADER as u64 {
                    header = Some(off);
                }
                off = off + (v[1] + 7) / 8 * 8;
            },
        }
        left = left - 1;
    }
    Ok((off, header))
}

fn skip_datas(p: &mut PodParser, n: u64) -> (r: Result<(), PwError>)
    requires
        old(p).wf(),
    ensures
        final(p).wf(),
        match skip_datas_spec(old(p).rest(), n as nat) {
            Ok(rest) => r is Ok && final(p).rest() == rest && rest.len() <= old(p).rest().len(),
            Err(e) => r == Err::<(), PwError>(e),
        },
{
    let five: Vec<Field> = data_field_list();
    let mut left: u64 = n;
    while left > 0
        invariant
            p.wf(),
            five@ == data_fields(),
            p.rest().len() <= old(p).rest().len(),
            skip_datas_spec(old(p).rest(), n as nat) == skip_datas_spec(p.rest(), left as nat),
        decreases left,
    {
        proof {
            fields_shrink(p.rest(), data_fields());
        }
        match read_fields(p, &five) {
            Ok(_) => {},
            Err(e) => {
                return Err(PwError::Pod(e));
            },
        }
        left = left - 1;
    }
    Ok(())
}

impl MemPool {
    fn read_data_at(&self, v: &Vec<u64>) -> (r: Result<Option<DataAt>, PwError>)
        requires
            v@.len() == 5,
            v@[1] <= u32::MAX,
            v@[3] <= u32::MAX,
            v@[4] <= u32::MAX,
        ensures
            r == data_at_spec(self.blocks@, v@),
    {
        if v[0] == DATA_MEM_PTR as u64 {
            Ok(Some(DataAt::Block { at: v[1] }))
        } else if v[0] == DATA_MEM_FD as u64 {
            match self.map_window(v[1] as u32, v[3] as u32, v[4] as u32) {
                Ok(map) => Ok(Some(DataAt::Own { map })),
                Err(e) => Err(e),
            }
        } else {
            Ok(None)
        }
    }

    fn read_buffer(&self, p: &mut PodParser, total: Ghost<nat>) -> (r: Result<Option<Buffer>, PwError>)
        requires
            old(p).wf(),
            old(p).rest().len() <= total@,
            total@ <= 0x100_0000,
        ensures
            final(p).wf(),
            match buffer_spec(self.blocks@, old(p).rest()) {
                Err(e) => r == Err::<Option<Buffer>, PwError>(e),
                Ok((b, rest)) => r == Ok::<Option<Buffer>, PwError>(b) && final(p).rest() == rest && rest.len()
                    <= old(p).rest().len(),
            },
    {
        let three: Vec<Field> = num_fields(3);
        let one: Vec<Field> = num_fields(1);
        let five: Vec<Field> = data_field_list();
        proof {
            fields_shrink(p.rest(), nums(3));
        }
        let m: Vec<u64> = match read_fields(p, &three) {
            Ok(v) => v,
            Err(e) => {
                return Err(PwError::Pod(e));
            },
        };
        assert(!(nums(3)[0] is Fd) && !(nums(3)[1] is Fd) && !(nums(3)[2] is Fd));
        let mem: MemMap = match self.map_window(m[0] as u32, m[1] as u32, m[2] as u32) {
            Ok(w) => w,
            Err(e) => {
                return Err(e);
            },
        };
        proof {
            fields_shrink(p.rest(), nums(1));
        }
        let nm: Vec<u64> = match read_fields(p, &one) {
            Ok(v) => v,
            Err(e) => {
                return Err(PwError::Pod(e));
            },
        };
        assert(!(nums(1)[0] is Fd));
        let (off, header) = match read_metas(p, nm[0] as u32, total) {
            Ok(x) => x,
            Err(e) => {
                return Err(PwError::Pod(e));
            },
        };
        proof {
            fields_shrink(p.rest(), nums(1));
        }
        let nd: Vec<u64> = match read_fields(p, &one) {
            Ok(v) => v,
            Err(e) => {
                return Err(PwError::Pod(e));
            },
        };
        if nd[0] == 0 {
            return Ok(None);
        }
        proof {
            fields_shrink(p.rest(), data_fields());
        }
        let v: Vec<u64> = match read_fields(p, &five) {
            Ok(v) => v,
            Err(e) => {
                return Err(PwError::Pod(e));
            },
        };
        assert(!(data_fields()[1] is Fd) && !(data_fields()[3] is Fd) && !(data_fields()[4] is Fd));
        let at: Option<DataAt> = match self.read_data_at(&v) {
            Ok(at) => at,
            Err(e) => {
                return Err(e);
            },
        };
        match skip_datas(p, nd[0] - 1) {
            Ok(_) => {},
            Err(e) => {
                return Err(e);
            },
        }
        match at {
            None => Ok(None),
            Some(data) => Ok(Some(Buffer { mem, header, chunk: off, data, data_len: v[4] })),
        }
    }

    /// Reads a use-buffers event.
    pub fn use_buffers(&self, body: &Vec<u8>) -> (r: Result<Vec<Buffer>, PwError>)
        requires
            body@.len() < 0x100_0000,
        ensures
            match use_buffers_spec(self.blocks@, body@) {
                Ok(bs) => r matches Ok(v) && v@ == bs,
                Err(e) => r == Err::<Vec<Buffer>, PwError>(e),
            },
    {
        let mut p: PodParser = PodParser::new(body);
        let mut s: PodParser = match p.struct_() {
            Ok(s) => s,
            Err(e) => {
                return Err(PwError::Pod(e));
            },
        };
        let five: Vec<Field> = num_fields(5);
        proof {
            fields_shrink(s.rest(), nums(5));
        }
        let h: Vec<u64> = match read_fields(&mut s, &five) {
            Ok(v) => v,
            Err(e) => {
                return Err(PwError::Pod(e));
            },
        };
        assert(!(nums(5)[4] is Fd));
        self.read_buffers(&mut s, h[4], Ghost(body@.len()))
    }

    fn read_buffers(&self, p: &mut PodParser, n: u64, total: Ghost<nat>) -> (r: Result<Vec<Buffer>, PwError>)
        requires
            old(p).wf(),
            old(p).rest().len() <= total@,
            total@ <= 0x100_0000,
        ensures
            match buffers_spec(self.blocks@, old(p).rest(), n as nat, Seq::empty()) {
                Ok(bs) => r matches Ok(v) && v@ == bs,
                Err(e) => r == Err::<Vec<Buffer>, PwError>(e),
            },
    {
        let mut out: Vec<Buffer> = Vec::new();
        assert(out@ =~= Seq::<Buffer>::empty());
        let mut left: u64 = n;
        while left > 0
            invariant
                p.wf(),
                p.rest().len() <= total@,
                total@ <= 0x100_0000,
                buffers_spec(self.blocks@, old(p).rest(), n as nat, Seq::empty()) == buffers_spec(
                    self.blocks@,
                    p.rest(),
                    left as nat,
                    out@,
                ),
            decreases left,
        {
            match self.read_buffer(p, total) {
                Ok(b) => match b {
                    Some(b) => out.push(b),
                    None => {},
                },
                Err(e) => {
                    return Err(e);
                },
            }
            left = left - 1;
        }
        Ok(out)
    }
}


/// What a frame asks of the node.
#[derive(Clone, Copy, Debug, PartialEq, Eq, Structural)]
pub enum NodeEvent {
    AddMem { id: u32, fd: u64, write: bool },
    RemoveMem { id: u32 },
    BoundId { local: u32, global: u32 },
    Format { set: bool },
    UseBuffers,
    SetIo { io: u32, mem: u32, offset: u32, size: u32 },
    Transport { fd: u64, mem: u32, offset: u32, size: u32 },
    Activation { node: u32, fd: u64, mem: u32, offset: u32, size: u32 },
    DropActivation { node: u32 },
    /// a node parameter that changes nothing here
    Ignored,
    /// not for the node
    Foreign,
}

/// The fields of an event's struct, and what follows them.
pub open spec fn struct_fields(body: Seq<u8>, fs: Seq<Field>) -> Result<(Seq<u64>, Seq<u8>), PodError> {
    match take_struct(body) {
        Err(e) => Err(e),
        Ok((s, _)) => take_fields(s, fs),
    }
}

/// An fd index that says there is no fd.
pub open spec fn negative(fd: u64) -> bool {
    fd >= 0x8000_0000_0000_0000
}

/// Which event a frame is, with its fields.
pub open spec fn event_spec(proxy: u32, id: u32, opcode: u8, body: Seq<u8>) -> Result<NodeEvent, PodError> {
    if id == 0 && opcode == EV_CORE_ADD_MEM {
        match struct_fields(body, seq![Field::Num, Field::Id, Field::Fd, Field::Num]) {
            Err(e) => Err(e),
            Ok((v, _)) => Ok(NodeEvent::AddMem { id: v[0] as u32, fd: v[2], write: v[3] / 2 % 2 == 1 }),
        }
    } else if id == 0 && opcode == EV_CORE_REMOVE_MEM {
        match struct_fields(body, seq![Field::Num]) {
            Err(e) => Err(e),
            Ok((v, _)) => Ok(NodeEvent::RemoveMem { id: v[0] as u32 }),
        }
    } else if id == 0 && opcode == EV_CORE_BOUND_ID {
        match struct_fields(body, seq![Field::Num, Field::Num]) {
            Err(e) => Err(e),
            Ok((v, _)) => Ok(NodeEvent::BoundId { local: v[0] as u32, global: v[1] as u32 }),
        }
    } else if id != proxy {
        Ok(NodeEvent::Foreign)
    } else if opcode == EV_CN_PORT_SET_PARAM {
        match struct_fields(body, seq![Field::Num, Field::Num, Field::Id, Field::Num]) {
            Err(e) => Err(e),
            Ok((v, rest)) => Ok(NodeEvent::Format { set: v[2] == PARAM_FORMAT && rest.len() > 0 }),
        }
    } else if opcode == EV_CN_PORT_USE_BUFFERS {
        Ok(NodeEvent::UseBuffers)
    } else if opcode == EV_CN_PORT_SET_IO {
        match struct_fields(
            body,
            seq![Field::Num, Field::Num, Field::Num, Field::Id, Field::Num, Field::Num, Field::Num],
        ) {
            Err(e) => Err(e),
            Ok((v, _)) => Ok(
                NodeEvent::SetIo { io: v[3] as u32, mem: v[4] as u32, offset: v[5] as u32, size: v[6] as u32 },
            ),
        }
    } else if opcode == EV_CN_TRANSPORT {
        match struct_fields(body, seq![Field::Fd, Field::Fd, Field::Num, Field::Num, Field::Num]) {
            Err(e) => Err(e),
            Ok((v, _)) => Ok(
                NodeEvent::Transport { fd: v[0], mem: v[2] as u32, offset: v[3] as u32, size: v[4] as u32 },
            ),
        }
    } else if opcode == EV_CN_SET_ACTIVATION {
        match struct_fields(body, seq![Field::Num, Field::Fd]) {
            Err(e) => Err(e),
            Ok((v, rest)) => if negative(v[1]) {
                Ok(NodeEvent::DropActivation { node: v[0] as u32 })
            } else {
                match take_fields(rest, nums(3)) {
                    Err(e) => Err(e),
                    Ok((w, _)) => Ok(
                        NodeEvent::Activation {
                            node: v[0] as u32,
                            fd: v[1],
                            mem: w[0] as u32,
                            offset: w[1] as u32,
                            size: w[2] as u32,
                        },
                    ),
                }
            },
        }
    } else if opcode == EV_CN_SET_PARAM {
        Ok(NodeEvent::Ignored)
    } else {
        Ok(NodeEvent::Foreign)
    }
}

/// Reads the leading fields of an event's struct; `done` tells whether nothing
/// follows them.
fn event_fields(body: &Vec<u8>, fs: &Vec<Field>) -> (r: Result<(Vec<u64>, bool), PodError>)
    ensures
        match struct_fields(body@, fs@) {
            Ok((vs, rest)) => r matches Ok((v, done)) && v@ == vs && vs.len() == fs@.len() && done == (
                rest.len() == 0) && forall|i: int|
                0 <= i < fs@.len() && !(fs@[i] is Fd) ==> #[trigger] vs[i] <= u32::MAX,
            Err(e) => r == Err::<(Vec<u64>, bool), PodError>(e),
        },
{
    let mut p: PodParser = PodParser::new(body);
    let mut s: PodParser = match p.struct_() {
        Ok(s) => s,
        Err(e) => {
            return Err(e);
        },
    };
    proof {
        fields_shrink(s.rest(), fs@);
    }
    match read_fields(&mut s, fs) {
        Ok(v) => Ok((v, s.done())),
        Err(e) => Err(e),
    }
}

fn read_activation(body: &Vec<u8>) -> (r: Result<NodeEvent, PodError>)
    ensures
        r == event_spec(1, 1, EV_CN_SET_ACTIVATION, body@),
{
    let mut p: PodParser = PodParser::new(body);
    let mut s: PodParser = match p.struct_() {
        Ok(s) => s,
        Err(e) => {
            return Err(e);
        },
    };
    let mut fs: Vec<Field> = Vec::new();
    fs.push(Field::Num);
    fs.push(Field::Fd);
    assert(fs@ =~= seq![Field::Num, Field::Fd]);
    proof {
        fields_shrink(s.rest(), fs@);
    }
    let v: Vec<u64> = match read_fields(&mut s, &fs) {
        Ok(v) => v,
        Err(e) => {
            return Err(e);
        },
    };
    if v[1] >= 0x8000_0000_0000_0000 {
        return Ok(NodeEvent::DropActivation { node: v[0] as u32 });
    }
    let three: Vec<Field> = num_fields(3);
    proof {
        fields_shrink(s.rest(), nums(3));
    }
    match read_fields(&mut s, &three) {
        Ok(w) => {
            Ok(
                NodeEvent::Activation {
                    node: v[0] as u32,
                    fd: v[1],
                    mem: w[0] as u32,
                    offset: w[1] as u32,
                    size: w[2] as u32,
                },
            )
        },
        Err(e) => Err(e),
    }
}

/// Decodes a frame for the node with this proxy id.
pub fn decode_event(proxy: u32, f: &Frame) -> (r: Result<NodeEvent, PodError>)
    ensures
        r == event_spec(proxy, f.id, f.opcode, f.body@),
{
    if f.id == 0 && f.opcode == EV_CORE_ADD_MEM {
        let fs: Vec<Field> = vec![Field::Num, Field::Id, Field::Fd, Field::Num];
        assert(fs@ =~= seq![Field::Num, Field::Id, Field::Fd, Field::Num]);
        return match event_fields(&f.body, &fs) {
            Ok((v, _)) => Ok(NodeEvent::AddMem { id: v[0] as u32, fd: v[2], write: v[3] / 2 % 2 == 1 }),
            Err(e) => Err(e),
        };
    }
    if f.id == 0 && f.opcode == EV_CORE_REMOVE_MEM {
        let fs: Vec<Field> = vec![Field::Num];
        assert(fs@ =~= seq![Field::Num]);
        return match event_fields(&f.body, &fs) {
            Ok((v, _)) => Ok(NodeEvent::RemoveMem { id: v[0] as u32 }),
            Err(e) => Err(e),
        };
    }
    if f.id == 0 && f.opcode == EV_CORE_BOUND_ID {
        let fs: Vec<Field> = vec![Field::Num, Field::Num];
        assert(fs@ =~= seq![Field::Num, Field::Num]);
        return match event_fields(&f.body, &fs) {
            Ok((v, _)) => Ok(NodeEvent::BoundId { local: v[0] as u32, global: v[1] as u32 }),
            Err(e) => Err(e),
        };
    }
    if f.id != proxy {
        return Ok(NodeEvent::Foreign);
    }
    if f.opcode == EV_CN_PORT_SET_PARAM {
        let fs: Vec<Field> = vec![Field::Num, Field::Num, Field::Id, Field::Num];
        assert(fs@ =~= seq![Field::Num, Field::Num, Field::Id, Field::Num]);
        return match event_fields(&f.body, &fs) {
            Ok((v, done)) => Ok(NodeEvent::Format { set: v[2] == PARAM_FORMAT as u64 && !done }),
            Err(e) => Err(e),
        };
    }
    if f.opcode == EV_CN_PORT_USE_BUFFERS {
        return Ok(NodeEvent::UseBuffers);
    }
    if f.opcode == EV_CN_PORT_SET_IO {
        let fs: Vec<Field> = vec![
            Field::Num,
            Field::Num,
            Field::Num,
            Field::Id,
            Field::Num,
            Field::Num,
            Field::Num,
        ];
        assert(fs@ =~= seq![
            Field::Num,
            Field::Num,
            Field::Num,
            Field::Id,
            Field::Num,
            Field::Num,
            Field::Num,
        ]);
        return match event_fields(&f.body, &fs) {
            Ok((v, _)) => Ok(
                NodeEvent::SetIo { io: v[3] as u32, mem: v[4] as u32, offset: v[5] as u32, size: v[6] as u32 },
            ),
            Err(e) => Err(e),
        };
    }
    if f.opcode == EV_CN_TRANSPORT {
        let fs: Vec<Field> = vec![Field::Fd, Field::Fd, Field::Num, Field::Num, Field::Num];
        assert(fs@ =~= seq![Field::Fd, Field::Fd, Field::Num, Field::Num, Field::Num]);
        return match event_fields(&f.body, &fs) {
            Ok((v, _)) => Ok(
                NodeEvent::Transport { fd: v[0], mem: v[2] as u32, offset: v[3] as u32, size: v[4] as u32 },
            ),
            Err(e) => Err(e),
        };
    }
    if f.opcode == EV_CN_SET_ACTIVATION {
        return read_activation(&f.body);
    }
    if f.opcode == EV_CN_SET_PARAM {
        Ok(NodeEvent::Ignored)
    } else {
        Ok(NodeEvent::Foreign)
    }
}

/// A follower of the node: its eventfd and its activation record.
#[derive(Clone, Copy, Debug, PartialEq, Eq, Structural)]
pub struct Peer {
    pub fd: u64,
    pub mem: MemMap,
}

pub struct SourceNode {
    pub proxy_id: u32,
    pub width: u32,
    pub height: u32,
    pub fps: u32,
    pub buffers: Vec<Buffer>,
    /// io area of the output port
    pub io: Option<MemMap>,
    pub pool: MemPool,
    pub peers: HashMap<u32, Peer>,
    /// our own activation record
    pub activation: Option<MemMap>,
    pub transport_read: Option<u64>,
    pub bound_global: Option<u32>,
    pub format_set: bool,
    pub seq: u64,
    /// fds that nothing holds any more, to be closed
    pub released: Vec<u64>,
}

/// The node, over mathematical collections.
#[verifier::ext_equal]
pub struct NodeView {
    pub proxy_id: u32,
    pub width: u32,
    pub height: u32,
    pub fps: u32,
    pub buffers: Seq<Buffer>,
    pub io: Option<MemMap>,
    pub blocks: Map<u32, MemBlock>,
    pub peers: Map<u32, Peer>,
    pub activation: Option<MemMap>,
    pub transport_read: Option<u64>,
    pub bound_global: Option<u32>,
    pub format_set: bool,
    pub seq: u64,
    pub released: Seq<u64>,
}

impl View for SourceNode {
    type V = NodeView;

    open spec fn view(&self) -> NodeView {
        NodeView {
            proxy_id: self.proxy_id,
            width: self.width,
            height: self.height,
            fps: self.fps,
            buffers: self.buffers@,
            io: self.io,
            blocks: self.pool.blocks@,
            peers: self.peers@,
            activation: self.activation,
            transport_read: self.transport_read,
            bound_global: self.bound_global,
            format_set: self.format_set,
            seq: self.seq,
            released: self.released@,
        }
    }
}

/// The fd in a frame's slot.
pub open spec fn fd_at(fds: Seq<Option<u64>>, idx: u64) -> Option<u64> {
    if idx < fds.len() { fds[idx as int] } else { None }
}

/// The fds of a frame once the slot's fd was taken.
pub open spec fn fd_taken(fds: Seq<Option<u64>>, idx: u64) -> Seq<Option<u64>> {
    if idx < fds.len() { fds.update(idx as int, None) } else { fds }
}

/// What the node becomes, what is left of the frame's fds, and the outcome.
pub struct Handled {
    pub node: NodeView,
    pub fds: Seq<Option<u64>>,
    pub result: Result<bool, PwError>,
}

pub open spec fn kept(n: NodeView, fds: Seq<Option<u64>>, result: Result<bool, PwError>) -> Handled {
    Handled { node: n, fds, result }
}

/// An fd that something else held before is released.
pub open spec fn release(n: NodeView, was: Option<u64>) -> NodeView {
    match was {
        Some(fd) => NodeView { released: n.released.push(fd), ..n },
        None => n,
    }
}

pub open spec fn block_fd(blocks: Map<u32, MemBlock>, id: u32) -> Option<u64> {
    if blocks.contains_key(id) { Some(blocks[id].fd) } else { None }
}

pub open spec fn peer_fd(peers: Map<u32, Peer>, node: u32) -> Option<u64> {
    if peers.contains_key(node) { Some(peers[node].fd) } else { None }
}

/// One event applied to the node.
pub open spec fn apply_spec(n: NodeView, ev: NodeEvent, body: Seq<u8>, fds: Seq<Option<u64>>) -> Handled {
    match ev {
        NodeEvent::AddMem { id, fd, write } => match fd_at(fds, fd) {
            None => kept(n, fd_taken(fds, fd), Err(PwError::Env(Fault::AddMemWithoutFd))),
            Some(got) => kept(
                NodeView {
                    blocks: n.blocks.insert(id, MemBlock { fd: got, write }),
                    ..release(n, block_fd(n.blocks, id))
                },
                fd_taken(fds, fd),
                Ok(true),
            ),
        },
        NodeEvent::RemoveMem { id } => kept(
            NodeView { blocks: n.blocks.remove(id), ..release(n, block_fd(n.blocks, id)) },
            fds,
            Ok(true),
        ),
        NodeEvent::BoundId { local, global } => kept(
            if local == n.proxy_id { NodeView { bound_global: Some(global), ..n } } else { n },
            fds,
            Ok(true),
        ),
        NodeEvent::Format { set } => kept(
            NodeView { format_set: n.format_set || set, ..n },
            fds,
            Ok(true),
        ),
        NodeEvent::UseBuffers => match use_buffers_spec(n.blocks, body) {
            Ok(bs) => kept(NodeView { buffers: bs, ..n }, fds, Ok(true)),
            Err(e) => kept(n, fds, Err(e)),
        },
        NodeEvent::SetIo { io, mem, offset, size } => if io != IO_BUFFERS {
            kept(n, fds, Ok(true))
        } else if mem == u32::MAX {
            kept(NodeView { io: None, ..n }, fds, Ok(true))
        } else {
            match map_spec(n.blocks, mem, offset, size) {
                Ok(m) => kept(NodeView { io: Some(m), ..n }, fds, Ok(true)),
                Err(e) => kept(n, fds, Err(e)),
            }
        },
        NodeEvent::Transport { fd, mem, offset, size } => {
            let mapped = match map_spec(n.blocks, mem, offset, size) {
                Ok(m) => NodeView { activation: Some(m), ..n },
                Err(_) => n,
            };
            kept(
                match fd_at(fds, fd) {
                    Some(got) => NodeView { transport_read: Some(got), ..release(mapped, n.transport_read) },
                    None => mapped,
                },
                fd_taken(fds, fd),
                Ok(true),
            )
        },
        NodeEvent::Activation { node, fd, mem, offset, size } => match fd_at(fds, fd) {
            None => kept(n, fd_taken(fds, fd), Err(PwError::Env(Fault::ActivationWithoutFd))),
            Some(got) => match map_spec(n.blocks, mem, offset, size) {
                Err(e) => kept(release(n, Some(got)), fd_taken(fds, fd), Err(e)),
                Ok(m) => kept(
                    NodeView {
                        peers: n.peers.insert(node, Peer { fd: got, mem: m }),
                        ..release(n, peer_fd(n.peers, node))
                    },
                    fd_taken(fds, fd),
                    Ok(true),
                ),
            },
        },
        NodeEvent::DropActivation { node } => kept(
            NodeView { peers: n.peers.remove(node), ..release(n, peer_fd(n.peers, node)) },
            fds,
            Ok(true),
        ),
        NodeEvent::Ignored => kept(n, fds, Ok(true)),
        NodeEvent::Foreign => kept(n, fds, Ok(false)),
    }
}

/// One frame handled: a malformed one changes nothing.
pub open spec fn handle_spec(n: NodeView, id: u32, opcode: u8, body: Seq<u8>, fds: Seq<Option<u64>>) -> Handled {
    match event_spec(n.proxy_id, id, opcode, body) {
        Err(e) => kept(n, fds, Err(PwError::Pod(e))),
        Ok(ev) => apply_spec(n, ev, body, fds),
    }
}

fn take_fd_at(fds: &mut Vec<Option<u64>>, idx: u64) -> (r: Option<u64>)
    ensures
        r == fd_at(old(fds)@, idx),
        final(fds)@ == fd_taken(old(fds)@, idx),
{
    if idx < fds.len() as u64 {
        let got: Option<u64> = fds[idx as usize];
        fds.set(idx as usize, None);
        got
    } else {
        None
    }
}

/// A node the daemon has not answered yet.
pub open spec fn node_fresh(proxy_id: u32, width: u32, height: u32, fps: u32) -> NodeView {
    NodeView {
        proxy_id,
        width,
        height,
        fps,
        buffers: Seq::empty(),
        io: None,
        blocks: Map::empty(),
        peers: Map::empty(),
        activation: None,
        transport_read: None,
        bound_global: None,
        format_set: false,
        seq: 0,
        released: Seq::empty(),
    }
}

impl SourceNode {
    pub fn new(proxy_id: u32, width: u32, height: u32, fps: u32) -> (n: SourceNode)
        ensures
            n@ == node_fresh(proxy_id, width, height, fps),
    {
        let n = SourceNode {
            proxy_id,
            width,
            height,
            fps,
            buffers: Vec::new(),
            io: None,
            pool: MemPool::new(),
            peers: HashMap::new(),
            activation: None,
            transport_read: None,
            bound_global: None,
            format_set: false,
            seq: 0,
            released: Vec::new(),
        };
        n
    }

    fn let_go(&mut self, fd: Option<u64>)
        ensures
            final(self)@ == release(old(self)@, fd),
    {
        match fd {
            Some(fd) => self.released.push(fd),
            None => {},
        }
    }

    /// Dispatches a core or node event; a frame that is not for the node
    /// returns `false`.
    pub fn handle(&mut self, f: &mut Frame) -> (r: Result<bool, PwError>)
        requires
            old(f).body@.len() < 0x100_0000,
        ensures
            ({
                let h = handle_spec(old(self)@, old(f).id, old(f).opcode, old(f).body@, old(f).fds@);
                &&& r == h.result
                &&& final(self)@ =~= h.node
                &&& final(f).fds@ == h.fds
                &&& *final(f) == (Frame { fds: final(f).fds, ..*old(f) })
            }),
    {
        broadcast use vstd::std_specs::hash::group_hash_axioms;

        let ev: NodeEvent = match decode_event(self.proxy_id, f) {
            Ok(ev) => ev,
            Err(e) => {
                return Err(PwError::Pod(e));
            },
        };
        match ev {
            NodeEvent::AddMem { id, fd, write } => match take_fd_at(&mut f.fds, fd) {
                None => Err(PwError::Env(Fault::AddMemWithoutFd)),
                Some(got) => {
                    let was: Option<u64> = self.pool.add_block(id, got, write);
                    self.let_go(was);
                    Ok(true)
                },
            },
            NodeEvent::RemoveMem { id } => {
                let was: Option<u64> = self.pool.remove_block(id);
                self.let_go(was);
                Ok(true)
            },
            NodeEvent::BoundId { local, global } => {
                if local == self.proxy_id {
                    self.bound_global = Some(global);
                }
                Ok(true)
            },
            NodeEvent::Format { set } => {
                if set {
                    self.format_set = true;
                }
                Ok(true)
            },
            NodeEvent::UseBuffers => match self.pool.use_buffers(&f.body) {
                Ok(bs) => {
                    self.buffers = bs;
                    Ok(true)
                },
                Err(e) => Err(e),
            },
            NodeEvent::SetIo { io, mem, offset, size } => {
                if io == IO_BUFFERS {
                    if mem == u32::MAX {
                        self.io = None;
                    } else {
                        match self.pool.map_window(mem, offset, size) {
                            Ok(m) => {
                                self.io = Some(m);
                            },
                            Err(e) => {
                                return Err(e);
                            },
                        }
                    }
                }
                Ok(true)
            },
            NodeEvent::Transport { fd, mem, offset, size } => {
                match self.pool.map_window(mem, offset, size) {
                    Ok(m) => {
                        self.activation = Some(m);
                    },
                    Err(_) => {},
                }
                match take_fd_at(&mut f.fds, fd) {
                    Some(got) => {
                        let was: Option<u64> = self.transport_read;
                        self.let_go(was);
                        self.transport_read = Some(got);
                    },
                    None => {},
                }
                Ok(true)
            },
            NodeEvent::Activation { node, fd, mem, offset, size } => match take_fd_at(&mut f.fds, fd) {
                None => Err(PwError::Env(Fault::ActivationWithoutFd)),
                Some(got) => match self.pool.map_window(mem, offset, size) {
                    Err(e) => {
                        self.let_go(Some(got));
                        Err(e)
                    },
                    Ok(m) => {
                        match self.peers.insert(node, Peer { fd: got, mem: m }) {
                            Some(was) => self.let_go(Some(was.fd)),
                            None => {},
                        }
                        Ok(true)
                    },
                },
            },
            NodeEvent::DropActivation { node } => {
                match self.peers.remove(&node) {
                    Some(was) => self.let_go(Some(was.fd)),
                    None => {},
                }
                Ok(true)
            },
            NodeEvent::Ignored => Ok(true),
            NodeEvent::Foreign => Ok(false),
        }
    }

    /// The port is negotiated: format, buffers and io area are there.
    pub fn ready(&self) -> (r: bool)
        ensures
            r == (self.io is Some && self.buffers@.len() > 0 && self.format_set),
    {
        self.io.is_some() && self.buffers.len() > 0 && self.format_set
    }
}

/// What one produced frame writes into shared memory.
#[derive(Clone, Copy, Debug)]
pub struct Production {
    /// the buffer that is filled
    pub index: usize,
    /// bytes of pixels, also the chunk's size
    pub len: u64,
    pub stride: u64,
    /// sequence number for the header
    pub seq: u64,
}

impl SourceNode {
    /// Hands the next buffer to the graph. `cur` is the buffer the io area names
    /// now; the one after it is filled. Nothing happens without an io area.
    pub fn produce(&mut self, cur: u32) -> (r: Option<Production>)
        requires
            old(self).io is Some ==> old(self).buffers@.len() > 0,
            old(self).width * 4 * old(self).height <= u64::MAX,
            old(self).seq < u64::MAX,
        ensures
            r is Some <==> old(self).io is Some,
            r is None ==> *final(self) == *old(self),
            r matches Some(p) ==> {
                let next = if cur == u32::MAX { 0 } else { cur + 1 };
                let picture = old(self).width * 4 * old(self).height;
                let room = old(self).buffers@[p.index as int].data_len;
                &&& p.index == next % (old(self).buffers@.len() as int)
                &&& p.stride == old(self).width * 4
                &&& p.len == (if picture < room { picture } else { room as int })
                &&& p.seq == old(self).seq
                &&& *final(self) == (SourceNode { seq: (old(self).seq + 1) as u64, ..*old(self) })
            },
    {
        if self.io.is_none() {
            return None;
        }
        let next: u32 = cur.wrapping_add(1);
        let index: usize = next as usize % self.buffers.len();
        let stride: u64 = self.width as u64 * 4;
        let picture: u64 = stride * self.height as u64;
        let room: u64 = self.buffers[index].data_len;
        let len: u64 = if picture < room { picture } else { room };
        let seq: u64 = self.seq;
        self.seq = seq + 1;
        Some(Production { index, len, stride, seq })
    }
}

impl Production {
    /// The chunk of the filled buffer: offset, size, stride and flags.
    pub fn chunk(&self) -> (b: Vec<u8>)
        requires
            self.len <= u32::MAX,
            self.stride <= u32::MAX,
        ensures
            b@ == le32_spec(0) + le32_spec(self.len as u32) + le32_spec(self.stride as u32) + le32_spec(0),
    {
        let mut b: Vec<u8> = Vec::new();
        put_le32(&mut b, 0);
        assert(b@ =~= le32_spec(0));
        put_le32(&mut b, self.len as u32);
        put_le32(&mut b, self.stride as u32);
        put_le32(&mut b, 0);
        b
    }

    /// Its header: flags, offset, an unknown presentation time, no decoding offset, and
    /// the sequence number.
    pub fn header(&self) -> (b: Vec<u8>)
        ensures
            b@ == le32_spec(0) + le32_spec(0) + le64_spec(u64::MAX) + le64_spec(0) + le64_spec(self.seq),
            b@.len() == META_HEADER_BYTES,
    {
        let mut b: Vec<u8> = Vec::new();
        put_le32(&mut b, 0);
        assert(b@ =~= le32_spec(0));
        put_le32(&mut b, 0);
        put_le64(&mut b, u64::MAX);
        put_le64(&mut b, 0);
        put_le64(&mut b, self.seq);
        b
    }

    /// The io area once the buffer is handed over: its status, and the buffer.
    pub fn io(&self) -> (b: Vec<u8>)
        requires
            self.index <= u32::MAX,
        ensures
            b@ == le32_spec(STATUS_HAVE_DATA) + le32_spec(self.index as u32),
    {
        let mut b: Vec<u8> = Vec::new();
        put_le32(&mut b, STATUS_HAVE_DATA);
        assert(b@ =~= le32_spec(STATUS_HAVE_DATA));
        put_le32(&mut b, self.index as u32);
        b
    }
}

/// A fresh io area: no status, no buffer.
pub fn empty_io() -> (b: Vec<u8>)
    ensures
        b@ == le32_spec(0) + le32_spec(u32::MAX),
{
    let mut b: Vec<u8> = Vec::new();
    put_le32(&mut b, 0);
    assert(b@ =~= le32_spec(0));
    put_le32(&mut b, u32::MAX);
    b
}

/// A follower's activation after a frame: it misses one signal fewer, and is
/// triggered when ours was the only one missing.
pub fn kick(required: i32) -> (r: (i32, bool))
    requires
        required > i32::MIN,
    ensures
        r.0 == required - 1,
        r.1 == (required == 1),
{
    (required - 1, required == 1)
}

pub const UPDATE_PARAMS: u32 = 1;

pub const UPDATE_INFO: u32 = 2;

pub const OBJ_FORMAT: u32 = 0x40003;

pub const OBJ_PARAM_BUFFERS: u32 = 0x40004;

pub const OBJ_PARAM_META: u32 = 0x40005;

pub const PARAM_ENUM_FORMAT: u32 = 3;

pub const PARAM_BUFFERS: u32 = 5;

pub const PARAM_META: u32 = 6;

pub const FMT_MEDIA_TYPE: u32 = 1;

pub const FMT_MEDIA_SUBTYPE: u32 = 2;

pub const FMT_VIDEO_FORMAT: u32 = 0x20001;

pub const FMT_VIDEO_SIZE: u32 = 0x20003;

pub const FMT_VIDEO_FRAMERATE: u32 = 0x20004;

pub const MEDIA_TYPE_VIDEO: u32 = 2;

pub const MEDIA_SUBTYPE_RAW: u32 = 1;

pub const VIDEO_FORMAT_BGRX: u32 = 8;

pub const META_HEADER_BYTES: u32 = 32;

/// The format property list of the one offered format.
#[verifier::opaque]
pub open spec fn format_props(w: u32, h: u32, fps: u32) -> Seq<u8> {
    prop_key(FMT_MEDIA_TYPE) + id_pod(MEDIA_TYPE_VIDEO) + prop_key(FMT_MEDIA_SUBTYPE) + id_pod(MEDIA_SUBTYPE_RAW)
        + prop_key(FMT_VIDEO_FORMAT) + choice_pod(CHOICE_ENUM, T_ID, seq![VIDEO_FORMAT_BGRX, VIDEO_FORMAT_BGRX])
        + prop_key(FMT_VIDEO_SIZE) + pair_pod(T_RECTANGLE, w, h) + prop_key(FMT_VIDEO_FRAMERATE) + pair_pod(
        T_FRACTION,
        fps,
        1,
    )
}

fn put_format_props(out: &mut Vec<u8>, w: u32, h: u32, fps: u32)
    requires
        old(out)@.len() == 0,
    ensures
        final(out)@ == format_props(w, h, fps),
        final(out)@.len() <= 512,
{
    broadcast use pod_len;

    reveal(format_props);
    let alts: Vec<u32> = vec![VIDEO_FORMAT_BGRX, VIDEO_FORMAT_BGRX];
    assert(alts@ =~= seq![VIDEO_FORMAT_BGRX, VIDEO_FORMAT_BGRX]);
    assert(out@ + prop_key(FMT_MEDIA_TYPE) =~= prop_key(FMT_MEDIA_TYPE));
    put_prop(out, FMT_MEDIA_TYPE);
    put_id(out, MEDIA_TYPE_VIDEO);
    put_prop(out, FMT_MEDIA_SUBTYPE);
    put_id(out, MEDIA_SUBTYPE_RAW);
    put_prop(out, FMT_VIDEO_FORMAT);
    put_choice(out, CHOICE_ENUM, T_ID, &alts);
    put_prop(out, FMT_VIDEO_SIZE);
    put_rectangle(out, w, h);
    put_prop(out, FMT_VIDEO_FRAMERATE);
    put_fraction(out, fps, 1);
    proof {
        choice_pod_len(CHOICE_ENUM, T_ID, alts@);
    }
}

/// The buffer requirements: two to eight memfd buffers of one tightly packed
/// block.
#[verifier::opaque]
pub open spec fn buffers_props(w: u32, h: u32) -> Seq<u8> {
    prop_key(1) + choice_pod(CHOICE_RANGE, T_INT, seq![3u32, 2u32, 8u32]) + prop_key(2) + int_pod(1) + prop_key(3)
        + uint_pod((w * h * 4) as u32) + prop_key(4) + uint_pod((w * 4) as u32) + prop_key(6) + choice_pod(
        CHOICE_FLAGS,
        T_INT,
        seq![4u32],
    )
}

fn put_buffers_props(out: &mut Vec<u8>, w: u32, h: u32)
    requires
        old(out)@.len() == 0,
        w * h * 4 <= u32::MAX,
        w * 4 <= u32::MAX,
    ensures
        final(out)@ == buffers_props(w, h),
        final(out)@.len() <= 512,
{
    broadcast use pod_len;

    reveal(buffers_props);
    let range: Vec<u32> = vec![3, 2, 8];
    assert(range@ =~= seq![3u32, 2u32, 8u32]);
    let memfd: Vec<u32> = vec![4];
    assert(memfd@ =~= seq![4u32]);
    assert(out@ + prop_key(1) =~= prop_key(1));
    put_prop(out, 1);
    put_choice(out, CHOICE_RANGE, T_INT, &range);
    put_prop(out, 2);
    put_int(out, 1);
    put_prop(out, 3);
    let bytes: u64 = w as u64 * h as u64 * 4;
    put_uint(out, bytes as u32);
    put_prop(out, 4);
    put_uint(out, w * 4);
    put_prop(out, 6);
    put_choice(out, CHOICE_FLAGS, T_INT, &memfd);
    proof {
        choice_pod_len(CHOICE_RANGE, T_INT, range@);
        choice_pod_len(CHOICE_FLAGS, T_INT, memfd@);
    }
}

#[verifier::opaque]
pub open spec fn meta_props() -> Seq<u8> {
    prop_key(1) + id_pod(META_HEADER) + prop_key(2) + uint_pod(META_HEADER_BYTES)
}

fn put_meta_props(out: &mut Vec<u8>)
    requires
        old(out)@.len() == 0,
    ensures
        final(out)@ == meta_props(),
        final(out)@.len() <= 512,
{
    broadcast use pod_len;

    reveal(meta_props);
    assert(out@ + prop_key(1) =~= prop_key(1));
    put_prop(out, 1);
    put_id(out, META_HEADER);
    put_prop(out, 2);
    put_uint(out, META_HEADER_BYTES);
}

/// The port's info struct: change mask, flags, rate, and the three parameters
/// with their flags.
#[verifier::opaque]
pub open spec fn port_info() -> Seq<u8> {
    long_pod(11) + long_pod(0) + int_pod(0) + int_pod(1) + int_pod(0) + uint_pod(3) + id_pod(PARAM_ENUM_FORMAT)
        + uint_pod(3) + id_pod(PARAM_BUFFERS) + uint_pod(3) + id_pod(PARAM_META) + uint_pod(2)
}

fn put_port_info(out: &mut Vec<u8>)
    requires
        old(out)@.len() == 0,
    ensures
        final(out)@ == port_info(),
        final(out)@.len() <= 512,
{
    broadcast use pod_len;

    reveal(port_info);
    assert(out@ + long_pod(11) =~= long_pod(11));
    put_long(out, 11);
    put_long(out, 0);
    put_int(out, 0);
    put_int(out, 1);
    put_int(out, 0);
    put_uint(out, 3);
    put_id(out, PARAM_ENUM_FORMAT);
    put_uint(out, 3);
    put_id(out, PARAM_BUFFERS);
    put_uint(out, 3);
    put_id(out, PARAM_META);
    put_uint(out, 2);
}

/// The three offered parameters.
#[verifier::opaque]
pub open spec fn port_params(w: u32, h: u32, fps: u32) -> Seq<u8> {
    object_pod(OBJ_FORMAT, PARAM_ENUM_FORMAT, format_props(w, h, fps)) + object_pod(
        OBJ_PARAM_BUFFERS,
        PARAM_BUFFERS,
        buffers_props(w, h),
    ) + object_pod(OBJ_PARAM_META, PARAM_META, meta_props())
}

fn put_port_params(out: &mut Vec<u8>, w: u32, h: u32, fps: u32)
    requires
        old(out)@.len() == 0,
        w * h * 4 <= u32::MAX,
        w * 4 <= u32::MAX,
    ensures
        final(out)@ == port_params(w, h, fps),
        final(out)@.len() <= 2048,
{
    broadcast use pod_len;

    reveal(port_params);
    let mut format: Vec<u8> = Vec::new();
    put_format_props(&mut format, w, h, fps);
    let mut buffers: Vec<u8> = Vec::new();
    put_buffers_props(&mut buffers, w, h);
    let mut meta: Vec<u8> = Vec::new();
    put_meta_props(&mut meta);
    let ghost first = object_pod(OBJ_FORMAT, PARAM_ENUM_FORMAT, format@);
    assert(out@ + first =~= first);
    put_object(out, OBJ_FORMAT, PARAM_ENUM_FORMAT, &format);
    put_object(out, OBJ_PARAM_BUFFERS, PARAM_BUFFERS, &buffers);
    put_object(out, OBJ_PARAM_META, PARAM_META, &meta);
}

/// One output port: a single fixed memfd format, header metadata, buffers.
#[verifier::opaque]
pub open spec fn port_update_body(w: u32, h: u32, fps: u32) -> Seq<u8> {
    pod_spec(
        T_STRUCT,
        uint_pod(1) + uint_pod(0) + uint_pod(3) + uint_pod(3) + port_params(w, h, fps) + pod_spec(
            T_STRUCT,
            port_info(),
        ),
    )
}

/// The body of the node's port update.
pub fn port_update(w: u32, h: u32, fps: u32) -> (m: Vec<u8>)
    requires
        w * h * 4 <= u32::MAX,
        w * 4 <= u32::MAX,
    ensures
        m@ == port_update_body(w, h, fps),
        m@.len() < 0x100_0000,
{
    broadcast use pod_len;

    reveal(port_update_body);
    let mut params: Vec<u8> = Vec::new();
    put_port_params(&mut params, w, h, fps);
    let mut info: Vec<u8> = Vec::new();
    put_port_info(&mut info);
    let mut b: Vec<u8> = Vec::new();
    assert(b@ + uint_pod(1) =~= uint_pod(1));
    put_uint(&mut b, 1);
    put_uint(&mut b, 0);
    put_uint(&mut b, UPDATE_PARAMS + UPDATE_INFO);
    put_uint(&mut b, 3);
    put_all(&mut b, &params);
    put_pod(&mut b, T_STRUCT, &info);
    let mut m: Vec<u8> = Vec::new();
    put_pod(&mut m, T_STRUCT, &b);
    assert(m@ =~= pod_spec(T_STRUCT, b@));
    m
}

/// The node's own update: no input ports, one output port, no properties.
#[verifier::opaque]
pub open spec fn update_body() -> Seq<u8> {
    pod_spec(
        T_STRUCT,
        uint_pod(UPDATE_INFO) + uint_pod(0) + pod_spec(
            T_STRUCT,
            uint_pod(0) + uint_pod(1) + long_pod(5) + long_pod(0) + uint_pod(0) + uint_pod(0),
        ),
    )
}

pub fn node_update() -> (m: Vec<u8>)
    ensures
        m@ == update_body(),
        m@.len() < 0x100_0000,
{
    broadcast use pod_len;

    reveal(update_body);
    let mut i: Vec<u8> = Vec::new();
    assert(i@ + uint_pod(0) =~= uint_pod(0));
    put_uint(&mut i, 0);
    put_uint(&mut i, 1);
    put_long(&mut i, 5);
    put_long(&mut i, 0);
    put_uint(&mut i, 0);
    put_uint(&mut i, 0);
    let mut b: Vec<u8> = Vec::new();
    assert(b@ + uint_pod(UPDATE_INFO) =~= uint_pod(UPDATE_INFO));
    put_uint(&mut b, UPDATE_INFO);
    put_uint(&mut b, 0);
    put_pod(&mut b, T_STRUCT, &i);
    let mut m: Vec<u8> = Vec::new();
    put_pod(&mut m, T_STRUCT, &b);
    assert(m@ =~= update_body());
    m
}

pub fn set_active(active: bool) -> (m: Vec<u8>)
    ensures
        m@ == pod_spec(T_STRUCT, bool_pod(active)),
        m@.len() < 0x100_0000,
{
    broadcast use pod_len;

    let mut b: Vec<u8> = Vec::new();
    put_bool(&mut b, active);
    assert(b@ =~= bool_pod(active));
    let mut m: Vec<u8> = Vec::new();
    put_pod(&mut m, T_STRUCT, &b);
    assert(m@ =~= pod_spec(T_STRUCT, b@));
    m
}

/// What the node is called, and that it drives the graph.
#[verifier::opaque]
pub open spec fn driver_props() -> Seq<u8> {
    int_pod(6) + entry_pods("node.name"@, "carrot"@) + entry_pods("node.driver"@, "true"@) + entry_pods(
        "media.class"@,
        "Video/Source"@,
    )
}

/// What it carries.
#[verifier::opaque]
pub open spec fn media_props() -> Seq<u8> {
    entry_pods("media.type"@, "Video"@) + entry_pods("media.category"@, "Capture"@) + entry_pods(
        "media.role"@,
        "Screen"@,
    )
}

/// What the node is, for the daemon's session manager.
pub open spec fn node_props() -> Seq<u8> {
    driver_props() + media_props()
}

/// The request that creates the node.
#[verifier::opaque]
pub open spec fn create_body(proxy_id: u32) -> Seq<u8> {
    pod_spec(
        T_STRUCT,
        string_pod(utf8_of("client-node"@)) + string_pod(utf8_of("PipeWire:Interface:ClientNode"@)) + int_pod(
            CLIENT_NODE_VERSION,
        ) + pod_spec(T_STRUCT, node_props()) + uint_pod(proxy_id),
    )
}

fn put_driver_props(out: &mut Vec<u8>)
    requires
        old(out)@.len() == 0,
    ensures
        final(out)@ == driver_props(),
        final(out)@.len() <= 512,
{
    broadcast use pod_len;

    reveal(driver_props);
    proof {
        reveal_strlit("node.name");
        reveal_strlit("carrot");
        reveal_strlit("node.driver");
        reveal_strlit("true");
        reveal_strlit("media.class");
        reveal_strlit("Video/Source");
    }
    assert(out@ + int_pod(6) =~= int_pod(6));
    put_int(out, 6);
    put_entry(out, "node.name", "carrot");
    put_entry(out, "node.driver", "true");
    put_entry(out, "media.class", "Video/Source");
}

fn put_media_props(out: &mut Vec<u8>)
    requires
        old(out)@.len() == 0,
    ensures
        final(out)@ == media_props(),
        final(out)@.len() <= 512,
{
    broadcast use pod_len;

    reveal(media_props);
    proof {
        reveal_strlit("media.type");
        reveal_strlit("Video");
        reveal_strlit("media.category");
        reveal_strlit("Capture");
        reveal_strlit("media.role");
        reveal_strlit("Screen");
    }
    let ghost first = entry_pods("media.type"@, "Video"@);
    assert(out@ + first =~= first);
    put_entry(out, "media.type", "Video");
    put_entry(out, "media.category", "Capture");
    put_entry(out, "media.role", "Screen");
}

fn put_node_props(out: &mut Vec<u8>)
    requires
        old(out)@.len() == 0,
    ensures
        final(out)@ == node_props(),
        final(out)@.len() <= 1024,
{
    put_driver_props(out);
    let mut media: Vec<u8> = Vec::new();
    put_media_props(&mut media);
    put_all(out, &media);
}

pub fn create_request(proxy_id: u32) -> (m: Vec<u8>)
    ensures
        m@ == create_body(proxy_id),
        m@.len() < 0x100_0000,
{
    broadcast use pod_len;

    reveal(create_body);
    proof {
        reveal_strlit("client-node");
        reveal_strlit("PipeWire:Interface:ClientNode");
        ascii_len("client-node"@);
        ascii_len("PipeWire:Interface:ClientNode"@);
        string_pod_len(utf8_of("client-node"@));
        string_pod_len(utf8_of("PipeWire:Interface:ClientNode"@));
    }
    let mut props: Vec<u8> = Vec::new();
    put_node_props(&mut props);
    let mut b: Vec<u8> = Vec::new();
    let ghost first = string_pod(utf8_of("client-node"@));
    assert(b@ + first =~= first);
    put_string(&mut b, "client-node");
    put_string(&mut b, "PipeWire:Interface:ClientNode");
    put_int(&mut b, CLIENT_NODE_VERSION);
    put_pod(&mut b, T_STRUCT, &props);
    put_uint(&mut b, proxy_id);
    let mut m: Vec<u8> = Vec::new();
    put_pod(&mut m, T_STRUCT, &b);
    assert(m@ =~= pod_spec(T_STRUCT, b@));
    m
}

/// The bodies that bring a node up, in order, each with its object and opcode.
pub open spec fn opening(proxy_id: u32, w: u32, h: u32, fps: u32) -> Seq<(u32, u8, Seq<u8>)> {
    seq![
        (0u32, CORE_CREATE_OBJECT, create_body(proxy_id)),
        (proxy_id, CN_UPDATE, update_body()),
        (proxy_id, CN_PORT_UPDATE, port_update_body(w, h, fps)),
        (proxy_id, CN_SET_ACTIVE, pod_spec(T_STRUCT, bool_pod(true))),
    ]
}

/// Message `k` of a row that starts with sequence number `first`.
pub open spec fn numbered(m: (u32, u8, Seq<u8>), first: u32, k: int) -> Seq<u8> {
    frame_spec(m.0, m.1, nth(first, k), m.2)
}

fn send_next(con: &mut PwConn, out: &mut Vec<Vec<u8>>, id: u32, opcode: u8, body: Vec<u8>, first: Ghost<u32>)
    requires
        old(out)@.len() < 4,
        old(con).seq == nth(first@, old(out)@.len() as int),
        body@.len() < 0x100_0000,
    ensures
        final(out)@.len() == old(out)@.len() + 1,
        forall|i: int| 0 <= i < old(out)@.len() ==> final(out)@[i] == old(out)@[i],
        final(out)@[old(out)@.len() as int]@ == numbered((id, opcode, body@), first@, old(out)@.len() as int),
        final(con).seq == nth(first@, final(out)@.len() as int),
        final(con).inbuf == old(con).inbuf,
        final(con).pending_fds == old(con).pending_fds,
{
    out.push(con.send(id, opcode, &body));
}

impl SourceNode {
    /// Creates a node on the daemon: the frames that ask for it, describe it and its one
    /// port, and set it going.
    pub fn create(con: &mut PwConn, proxy_id: u32, width: u32, height: u32, fps: u32) -> (r: (SourceNode, Vec<Vec<u8>>))
        requires
            width * height * 4 <= u32::MAX,
            width * 4 <= u32::MAX,
        ensures
            r.0@ == node_fresh(proxy_id, width, height, fps),
            r.1@.len() == 4,
            forall|i: int|
                0 <= i < 4 ==> (#[trigger] r.1@[i])@ == numbered(
                    opening(proxy_id, width, height, fps)[i],
                    old(con).seq,
                    i,
                ),
            final(con).seq == nth(old(con).seq, 4),
            final(con).inbuf == old(con).inbuf && final(con).pending_fds == old(con).pending_fds,
    {
        let first: Ghost<u32> = Ghost(con.seq);
        let mut out: Vec<Vec<u8>> = Vec::new();
        send_next(con, &mut out, 0, CORE_CREATE_OBJECT, create_request(proxy_id), first);
        send_next(con, &mut out, proxy_id, CN_UPDATE, node_update(), first);
        send_next(con, &mut out, proxy_id, CN_PORT_UPDATE, port_update(width, height, fps), first);
        send_next(con, &mut out, proxy_id, CN_SET_ACTIVE, set_active(true), first);
        (SourceNode::new(proxy_id, width, height, fps), out)
    }
}

/// What a frame of the control stream asks of its pump.
pub enum Attended {
    /// answer a ping
    Pong { id: i32, seq: i32 },
    /// the daemon acked the cookie that was waited for
    Done,
    /// the daemon reported an error, and the stream ends
    Remote(RemoteError),
    Continue,
}

/// What the pump does about a frame: the node comes first, and what it leaves goes to
/// the core.
pub open spec fn attended(h: Handled, f: Frame, cookie: Option<i32>, r: Result<Attended, PwError>) -> bool {
    match h.result {
        Err(e) => r == Err::<Attended, PwError>(e),
        Ok(true) => r == Ok::<Attended, PwError>(Attended::Continue),
        Ok(false) => match pump_spec(f, cookie) {
            Err(e) => r == Err::<Attended, PwError>(PwError::Pod(e)),
            Ok(Pump::Pong { id, seq }) => r == Ok::<Attended, PwError>(Attended::Pong { id, seq }),
            Ok(Pump::Done) => r == Ok::<Attended, PwError>(Attended::Done),
            Ok(Pump::Continue) => r == Ok::<Attended, PwError>(Attended::Continue),
            Ok(Pump::Fail) => match remote_error_spec(f.body@) {
                Err(e) => r == Err::<Attended, PwError>(PwError::Pod(e)),
                Ok((object, result, msg)) => r matches Ok(Attended::Remote(e)) && e.object == object && e.result == result
                    && e.message@ == msg,
            },
        },
    }
}

/// Drives a node's control stream by one frame; `cookie` is the sync that is waited
/// for, if any.
pub fn attend(node: &mut SourceNode, f: &mut Frame, cookie: Option<i32>) -> (r: Result<Attended, PwError>)
    requires
        old(f).body@.len() < 0x100_0000,
    ensures
        ({
            let h = handle_spec(old(node)@, old(f).id, old(f).opcode, old(f).body@, old(f).fds@);
            &&& final(node)@ =~= h.node
            &&& final(f).fds@ == h.fds
            &&& *final(f) == (Frame { fds: final(f).fds, ..*old(f) })
            &&& attended(h, *old(f), cookie, r)
        }),
{
    match node.handle(f) {
        Err(e) => Err(e),
        Ok(true) => Ok(Attended::Continue),
        Ok(false) => match pump(f, cookie) {
            Err(e) => Err(PwError::Pod(e)),
            Ok(Pump::Pong { id, seq }) => Ok(Attended::Pong { id, seq }),
            Ok(Pump::Done) => Ok(Attended::Done),
            Ok(Pump::Continue) => Ok(Attended::Continue),
            Ok(Pump::Fail) => match remote_error(&f.body) {
                Ok(e) => Ok(Attended::Remote(e)),
                Err(e) => Err(PwError::Pod(e)),
            },
        },
    }
}

} // verus!
