//! The pipewire native protocol: frames are a sixteen-byte header (object id,
//! opcode and size, sequence, fd count) with a pod body; fds ride beside the
//! stream.

pub mod client_node;
pub mod pod;
pub mod reading;

use crate::bytes::{copy_range, get_le32, le32_spec, put_all, put_le32, read32_le32, read32_spec};
use crate::pipewire::pod::{
    int_pod, past_pod, pod_spec, put_int, put_pod, put_string, put_uint, string_pod, take_int, take_string, take_struct,
    take_word, text_bytes, uint_pod, utf8_of, PodError, PodParser, T_INT, T_STRUCT,
};
use vstd::prelude::*;

verus! {

pub const CORE_HELLO: u8 = 1;

pub const CORE_SYNC: u8 = 2;

pub const CORE_PONG: u8 = 3;

pub const CORE_GET_REGISTRY: u8 = 5;

pub const CORE_CREATE_OBJECT: u8 = 6;

pub const EV_CORE_INFO: u8 = 0;

pub const EV_CORE_DONE: u8 = 1;

pub const EV_CORE_PING: u8 = 2;

pub const EV_CORE_ERROR: u8 = 3;

pub const CLIENT_UPDATE_PROPERTIES: u8 = 2;

pub const EV_REGISTRY_GLOBAL: u8 = 0;

pub const CORE_VERSION: i32 = 3;

pub const REGISTRY_VERSION: i32 = 3;

/// What the surroundings or the daemon got wrong.
#[derive(Clone, Copy, Debug, PartialEq, Eq, Structural)]
pub enum Fault {
    NoRuntimeDir,
    FdsTruncated,
    UnknownMem,
    AddMemWithoutFd,
    ActivationWithoutFd,
    NeverBound,
    WindowGone,
    NoWindow,
    NoOutput,
    NoWorkspace,
    NoSize,
}

impl Fault {
    pub open spec fn text(self) -> Seq<char> {
        match self {
            Fault::NoRuntimeDir => "no PIPEWIRE_RUNTIME_DIR or XDG_RUNTIME_DIR"@,
            Fault::FdsTruncated => "fd control data truncated"@,
            Fault::UnknownMem => "unknown mem id"@,
            Fault::AddMemWithoutFd => "add_mem without fd"@,
            Fault::ActivationWithoutFd => "activation without fd"@,
            Fault::NeverBound => "the daemon never bound the node"@,
            Fault::WindowGone => "the chosen window is gone"@,
            Fault::NoWindow => "no window to cast"@,
            Fault::NoOutput => "no output to cast"@,
            Fault::NoWorkspace => "no such workspace"@,
            Fault::NoSize => "the window has no size yet"@,
        }
    }

    pub fn message(&self) -> (r: &'static str)
        ensures
            r@ == self.text(),
    {
        match self {
            Fault::NoRuntimeDir => "no PIPEWIRE_RUNTIME_DIR or XDG_RUNTIME_DIR",
            Fault::FdsTruncated => "fd control data truncated",
            Fault::UnknownMem => "unknown mem id",
            Fault::AddMemWithoutFd => "add_mem without fd",
            Fault::ActivationWithoutFd => "activation without fd",
            Fault::NeverBound => "the daemon never bound the node",
            Fault::WindowGone => "the chosen window is gone",
            Fault::NoWindow => "no window to cast",
            Fault::NoOutput => "no output to cast",
            Fault::NoWorkspace => "no such workspace",
            Fault::NoSize => "the window has no size yet",
        }
    }
}

#[derive(Clone, Copy, Debug, PartialEq, Eq, Structural)]
pub enum PwError {
    Env(Fault),
    /// a system call failed with this errno
    Io(i32),
    /// the daemon hung up
    Closed,
    Pod(PodError),
}

/// An error event of the daemon.
pub struct RemoteError {
    pub object: i32,
    pub result: i32,
    pub message: Vec<u8>,
}

/// The daemon socket's path: `PIPEWIRE_RUNTIME_DIR`, else `XDG_RUNTIME_DIR`,
/// and `PIPEWIRE_REMOTE`, else the default name.
pub fn socket_path(
    pw_dir: Option<String>,
    xdg_dir: Option<String>,
    remote: Option<String>,
) -> (r: Result<String, PwError>)
    ensures
        pw_dir is None && xdg_dir is None ==> r == Err::<String, PwError>(PwError::Env(Fault::NoRuntimeDir)),
        pw_dir is Some || xdg_dir is Some ==> {
            let dir = if pw_dir is Some { (pw_dir->0)@ } else { (xdg_dir->0)@ };
            let name = if remote is Some { (remote->0)@ } else { "pipewire-0"@ };
            r matches Ok(p) && p@ == dir + "/"@ + name
        },
{
    let dir: String = match pw_dir {
        Some(d) => d,
        None => match xdg_dir {
            Some(d) => d,
            None => {
                return Err(PwError::Env(Fault::NoRuntimeDir));
            },
        },
    };
    let slashed: String = dir.concat("/");
    match remote {
        Some(n) => Ok(slashed.concat(n.as_str())),
        None => Ok(slashed.concat("pipewire-0")),
    }
}

/// The header words of a frame.
pub open spec fn header_spec(id: u32, opcode: u8, size: nat, seq: u32, fds: u32) -> Seq<u8> {
    le32_spec(id) + le32_spec((opcode * 0x100_0000 + size) as u32) + le32_spec(seq) + le32_spec(fds)
}

/// A frame without fds.
pub open spec fn frame_spec(id: u32, opcode: u8, seq: u32, body: Seq<u8>) -> Seq<u8> {
    header_spec(id, opcode, body.len(), seq, 0) + body
}

pub struct Frame {
    pub id: u32,
    pub opcode: u8,
    pub seq: u32,
    pub body: Vec<u8>,
    /// options so handlers can take ownership fd by fd
    pub fds: Vec<Option<u64>>,
}

/// What the first frame of a byte stream says: size word, then the rest.
pub open spec fn frame_size(s: Seq<u8>) -> nat {
    (read32_spec(s.skip(4)) % 0x100_0000) as nat
}

/// A whole frame is there.
pub open spec fn has_frame(s: Seq<u8>) -> bool {
    s.len() >= 16 && s.len() >= 16 + frame_size(s)
}

/// The fds a frame claims: the first `n` in arrival order, as far as they came.
pub open spec fn claimed(queue: Seq<u64>, n: nat) -> Seq<Option<u64>> {
    Seq::new(n, |i: int| if i < queue.len() { Some(queue[i]) } else { None })
}

/// The connection's framing state: what was read but not cut into frames yet.
pub struct PwConn {
    pub seq: u32,
    pub inbuf: Vec<u8>,
    pub pending_fds: Vec<u64>,
}

impl PwConn {
    pub fn new() -> (c: PwConn)
        ensures
            c.seq == 0,
            c.inbuf@.len() == 0,
            c.pending_fds@.len() == 0,
    {
        PwConn { seq: 0, inbuf: Vec::new(), pending_fds: Vec::new() }
    }

    /// The bytes of one message; the sequence number wraps.
    pub fn send(&mut self, id: u32, opcode: u8, body: &Vec<u8>) -> (msg: Vec<u8>)
        requires
            body@.len() < 0x100_0000,
        ensures
            msg@ == frame_spec(id, opcode, old(self).seq, body@),
            final(self).seq == nth(old(self).seq, 1),
            final(self).inbuf == old(self).inbuf,
            final(self).pending_fds == old(self).pending_fds,
    {
        let seq: u32 = self.seq;
        self.seq = seq.wrapping_add(1);
        let mut msg: Vec<u8> = Vec::new();
        put_le32(&mut msg, id);
        put_le32(&mut msg, opcode as u32 * 0x100_0000 + body.len() as u32);
        put_le32(&mut msg, seq);
        put_le32(&mut msg, 0);
        put_all(&mut msg, body);
        assert(msg@ =~= frame_spec(id, opcode, seq, body@));
        msg
    }

    /// Takes in what one read brought.
    pub fn feed(&mut self, bytes: &Vec<u8>, fds: &Vec<u64>)
        ensures
            final(self).inbuf@ == old(self).inbuf@ + bytes@,
            final(self).pending_fds@ == old(self).pending_fds@ + fds@,
            final(self).seq == old(self).seq,
    {
        put_all(&mut self.inbuf, bytes);
        let ghost had = self.pending_fds@;
        for i in 0..fds.len()
            invariant
                self.pending_fds@ == had + fds@.take(i as int),
                self.inbuf@ == old(self).inbuf@ + bytes@,
                self.seq == old(self).seq,
        {
            self.pending_fds.push(fds[i]);
            assert(self.pending_fds@ =~= had + fds@.take(i + 1));
        }
        assert(fds@.take(fds@.len() as int) =~= fds@);
    }

    /// Cuts the next whole frame off the front of what was read.
    pub fn cut_frame(&mut self) -> (r: Option<Frame>)
        ensures
            final(self).seq == old(self).seq,
            r is Some <==> has_frame(old(self).inbuf@),
            r is None ==> *final(self) == *old(self),
            r matches Some(f) ==> {
                let s = old(self).inbuf@;
                let n = read32_spec(s.skip(12)) as nat;
                &&& f.id == read32_spec(s)
                &&& f.opcode == read32_spec(s.skip(4)) / 0x100_0000
                &&& f.seq == read32_spec(s.skip(8))
                &&& f.body@ == s.subrange(16, 16 + frame_size(s) as int)
                &&& f.fds@ == claimed(old(self).pending_fds@, n)
                &&& final(self).inbuf@ == s.skip(16 + frame_size(s) as int)
                &&& final(self).pending_fds@ == old(self).pending_fds@.skip(
                    if n < old(self).pending_fds@.len() { n as int } else { old(self).pending_fds@.len() as int },
                )
            },
    {
        let ghost s = self.inbuf@;
        if self.inbuf.len() < 16 {
            return None;
        }
        let word: u32 = get_le32(&self.inbuf, 4);
        let size: usize = (word % 0x100_0000) as usize;
        if self.inbuf.len() - 16 < size {
            return None;
        }
        let id: u32 = get_le32(&self.inbuf, 0);
        assert(s.skip(0) =~= s);
        let seq: u32 = get_le32(&self.inbuf, 8);
        let n_fds: u32 = get_le32(&self.inbuf, 12);
        let body: Vec<u8> = copy_range(&self.inbuf, 16, 16 + size);
        let rest: Vec<u8> = copy_range(&self.inbuf, 16 + size, self.inbuf.len());
        assert(rest@ =~= s.skip(16 + size as int));
        let ghost queue = self.pending_fds@;
        let mut fds: Vec<Option<u64>> = Vec::new();
        let have: usize = self.pending_fds.len();
        for i in 0..n_fds
            invariant
                have == queue.len(),
                self.pending_fds@ == queue,
                fds@ == claimed(queue, i as nat),
        {
            if (i as usize) < have {
                fds.push(Some(self.pending_fds[i as usize]));
            } else {
                fds.push(None);
            }
            assert(fds@ =~= claimed(queue, (i + 1) as nat));
        }
        let used: usize = if (n_fds as usize) < have { n_fds as usize } else { have };
        let left: Vec<u64> = self.pending_fds.split_off(used);
        assert(left@ =~= queue.skip(used as int));
        self.pending_fds = left;
        self.inbuf = rest;
        Some(Frame { id, opcode: (word / 0x100_0000) as u8, seq, body, fds })
    }

    /// The greeting: protocol version, then who we are.
    pub fn hello(&mut self) -> (r: (Vec<u8>, Vec<u8>))
        ensures
            r.0@ == frame_spec(0, CORE_HELLO, old(self).seq, hello_body()),
            r.1@ == frame_spec(
                1,
                CLIENT_UPDATE_PROPERTIES,
                nth(old(self).seq, 1),
                identity_body(),
            ),
            final(self).seq == nth(old(self).seq, 2),
            final(self).inbuf == old(self).inbuf,
            final(self).pending_fds == old(self).pending_fds,
    {
        broadcast use crate::pipewire::pod::pod_len;

        let mut a: Vec<u8> = Vec::new();
        put_int(&mut a, CORE_VERSION);
        let mut first: Vec<u8> = Vec::new();
        put_pod(&mut first, T_STRUCT, &a);
        proof {
            assert(a@ =~= int_pod(CORE_VERSION));
            assert(first@ =~= hello_body());
        }
        let b: Vec<u8> = identity();
        let x: Vec<u8> = self.send(0, CORE_HELLO, &first);
        let y: Vec<u8> = self.send(1, CLIENT_UPDATE_PROPERTIES, &b);
        (x, y)
    }

    pub fn get_registry(&mut self, new_id: u32) -> (msg: Vec<u8>)
        ensures
            msg@ == frame_spec(0, CORE_GET_REGISTRY, old(self).seq, pod_spec(
                T_STRUCT,
                int_pod(REGISTRY_VERSION) + uint_pod(new_id),
            )),
            final(self).seq == nth(old(self).seq, 1),
            final(self).inbuf == old(self).inbuf,
            final(self).pending_fds == old(self).pending_fds,
    {
        broadcast use crate::pipewire::pod::pod_len;

        let mut b: Vec<u8> = Vec::new();
        put_int(&mut b, REGISTRY_VERSION);
        put_uint(&mut b, new_id);
        assert(b@ =~= int_pod(REGISTRY_VERSION) + uint_pod(new_id));
        let mut m: Vec<u8> = Vec::new();
        put_pod(&mut m, T_STRUCT, &b);
        assert(m@ =~= pod_spec(T_STRUCT, b@));
        self.send(0, CORE_GET_REGISTRY, &m)
    }

    pub fn sync(&mut self, cookie: i32) -> (msg: Vec<u8>)
        ensures
            msg@ == frame_spec(0, CORE_SYNC, old(self).seq, pair_body(0, cookie)),
            final(self).seq == nth(old(self).seq, 1),
            final(self).inbuf == old(self).inbuf,
            final(self).pending_fds == old(self).pending_fds,
    {
        let m: Vec<u8> = pair(0, cookie);
        self.send(0, CORE_SYNC, &m)
    }

    pub fn pong(&mut self, id: i32, seq: i32) -> (msg: Vec<u8>)
        ensures
            msg@ == frame_spec(0, CORE_PONG, old(self).seq, pair_body(id, seq)),
            final(self).seq == nth(old(self).seq, 1),
            final(self).inbuf == old(self).inbuf,
            final(self).pending_fds == old(self).pending_fds,
    {
        let m: Vec<u8> = pair(id, seq);
        self.send(0, CORE_PONG, &m)
    }
}

/// The sequence number `k` frames after `first`, wrapping around.
pub open spec fn nth(first: u32, k: int) -> u32 {
    if first + k <= u32::MAX { (first + k) as u32 } else { (first + k - 0x1_0000_0000) as u32 }
}

pub open spec fn hello_body() -> Seq<u8> {
    pod_spec(T_STRUCT, int_pod(CORE_VERSION))
}

/// A key and value of a dictionary.
pub open spec fn entry_pods(key: Seq<char>, value: Seq<char>) -> Seq<u8> {
    string_pod(utf8_of(key)) + string_pod(utf8_of(value))
}

pub open spec fn identity_body() -> Seq<u8> {
    pod_spec(
        T_STRUCT,
        pod_spec(
            T_STRUCT,
            int_pod(2) + entry_pods("application.name"@, "carrot"@) + entry_pods(
                "application.process.binary"@,
                "carrot"@,
            ),
        ),
    )
}

/// An ascii text has one byte per character.
pub proof fn ascii_len(s: Seq<char>)
    requires
        vstd::utf8::is_ascii_chars(s),
    ensures
        utf8_of(s).len() == s.len(),
{
    broadcast use vstd::utf8::group_utf8_lib;

    vstd::utf8::is_ascii_chars_encode_utf8(s);
}

/// A string pod is the text, its terminator, a header and some padding.
pub proof fn string_pod_len(s: Seq<u8>)
    ensures
        string_pod(s).len() <= s.len() + 16,
{
    broadcast use crate::pipewire::pod::pod_len;

}

/// Appends a dictionary entry of two short ascii texts.
pub(crate) fn put_entry(out: &mut Vec<u8>, key: &str, value: &str)
    requires
        vstd::utf8::is_ascii_chars(key@),
        vstd::utf8::is_ascii_chars(value@),
        key@.len() <= 64,
        value@.len() <= 64,
    ensures
        final(out)@ == old(out)@ + entry_pods(key@, value@),
        entry_pods(key@, value@).len() <= 160,
{
    let ghost had = out@;
    proof {
        ascii_len(key@);
        ascii_len(value@);
        string_pod_len(utf8_of(key@));
        string_pod_len(utf8_of(value@));
    }
    put_string(out, key);
    put_string(out, value);
    assert(out@ =~= had + entry_pods(key@, value@));
}

fn identity() -> (m: Vec<u8>)
    ensures
        m@ == identity_body(),
        m@.len() < 0x100_0000,
{
    broadcast use crate::pipewire::pod::pod_len;

    proof {
        reveal_strlit("application.name");
        reveal_strlit("application.process.binary");
        reveal_strlit("carrot");
    }
    let mut d: Vec<u8> = Vec::new();
    put_int(&mut d, 2);
    put_entry(&mut d, "application.name", "carrot");
    put_entry(&mut d, "application.process.binary", "carrot");
    let ghost inner = int_pod(2) + entry_pods("application.name"@, "carrot"@) + entry_pods(
        "application.process.binary"@,
        "carrot"@,
    );
    assert(d@ =~= inner);
    let mut b: Vec<u8> = Vec::new();
    put_pod(&mut b, T_STRUCT, &d);
    assert(b@ =~= pod_spec(T_STRUCT, inner));
    let mut m: Vec<u8> = Vec::new();
    put_pod(&mut m, T_STRUCT, &b);
    assert(m@ =~= identity_body());
    m
}

pub open spec fn pair_body(a: i32, b: i32) -> Seq<u8> {
    pod_spec(T_STRUCT, int_pod(a) + int_pod(b))
}

fn pair(x: i32, y: i32) -> (m: Vec<u8>)
    ensures
        m@ == pair_body(x, y),
        m@.len() == 40,
{
    broadcast use crate::pipewire::pod::pod_len;

    let mut b: Vec<u8> = Vec::new();
    put_int(&mut b, x);
    put_int(&mut b, y);
    assert(b@ =~= int_pod(x) + int_pod(y));
    let mut m: Vec<u8> = Vec::new();
    put_pod(&mut m, T_STRUCT, &b);
    assert(m@ =~= pair_body(x, y));
    m
}

/// A sent frame comes out whole on the other side, and leaves what follows it
/// in the stream.
#[verifier::spinoff_prover]
pub proof fn frames_survive_the_stream(id: u32, opcode: u8, seq: u32, body: Seq<u8>, rest: Seq<u8>)
    requires
        body.len() < 0x100_0000,
    ensures
        ({
            let s = frame_spec(id, opcode, seq, body) + rest;
            &&& has_frame(s)
            &&& read32_spec(s) == id
            &&& read32_spec(s.skip(4)) / 0x100_0000 == opcode
            &&& read32_spec(s.skip(8)) == seq
            &&& read32_spec(s.skip(12)) == 0
            &&& s.subrange(16, 16 + frame_size(s) as int) == body
            &&& s.skip(16 + frame_size(s) as int) == rest
        }),
{
    let s = frame_spec(id, opcode, seq, body) + rest;
    let word = (opcode * 0x100_0000 + body.len()) as u32;
    let (a, b, c, d) = (le32_spec(id), le32_spec(word), le32_spec(seq), le32_spec(0));
    four_words(a, b, c, d, body, rest);
    read32_le32(id, b + c + d + body + rest);
    read32_le32(word, c + d + body + rest);
    read32_le32(seq, d + body + rest);
    read32_le32(0, body + rest);
    assert(word / 0x100_0000 == opcode && word % 0x100_0000 == body.len());
    assert(frame_size(s) == body.len());
}

/// Where the parts of a header, a body and what follows lie.
proof fn four_words(a: Seq<u8>, b: Seq<u8>, c: Seq<u8>, d: Seq<u8>, body: Seq<u8>, rest: Seq<u8>)
    requires
        a.len() == 4 && b.len() == 4 && c.len() == 4 && d.len() == 4,
    ensures
        ({
            let s = a + b + c + d + body + rest;
            &&& s.len() == 16 + body.len() + rest.len()
            &&& s == a + (b + c + d + body + rest)
            &&& s.skip(4) == b + (c + d + body + rest)
            &&& s.skip(8) == c + (d + body + rest)
            &&& s.skip(12) == d + (body + rest)
            &&& s.subrange(16, 16 + body.len() as int) == body
            &&& s.skip(16 + body.len() as int) == rest
        }),
{
}

/// A frame that arrived in part is not cut: every proper prefix waits.
pub proof fn partial_frames_wait(id: u32, opcode: u8, seq: u32, body: Seq<u8>, n: int)
    requires
        body.len() < 0x100_0000,
        0 <= n < frame_spec(id, opcode, seq, body).len(),
    ensures
        !has_frame(frame_spec(id, opcode, seq, body).take(n)),
{
    let f = frame_spec(id, opcode, seq, body);
    if n >= 16 {
        frames_survive_the_stream(id, opcode, seq, body, Seq::empty());
        assert(f + Seq::<u8>::empty() =~= f);
        let a = f.skip(4);
        let b = f.take(n).skip(4);
        assert(a[0] == b[0] && a[1] == b[1] && a[2] == b[2] && a[3] == b[3]);
        assert(frame_size(f) == body.len()) by {
            let word = (opcode * 0x100_0000 + body.len()) as u32;
            assert(f.skip(4) =~= le32_spec(word) + (le32_spec(seq) + le32_spec(0) + body));
            read32_le32(word, le32_spec(seq) + le32_spec(0) + body);
        }
    }
}

/// An error event: object, sequence, result, message.
pub open spec fn remote_error_spec(body: Seq<u8>) -> Result<(i32, i32, Seq<u8>), PodError> {
    match take_struct(body) {
        Err(e) => Err(e),
        Ok((s, _)) => match take_int(s) {
            Err(e) => Err(e),
            Ok((id, s1)) => match take_int(s1) {
                Err(e) => Err(e),
                Ok((_, s2)) => match take_int(s2) {
                    Err(e) => Err(e),
                    Ok((res, s3)) => match take_string(s3) {
                        Err(e) => Err(e),
                        Ok((msg, _)) => Ok((id, res, msg)),
                    },
                },
            },
        },
    }
}

pub fn remote_error(body: &Vec<u8>) -> (r: Result<RemoteError, PodError>)
    ensures
        match remote_error_spec(body@) {
            Ok((object, result, msg)) => r matches Ok(e) && e.object == object && e.result == result
                && e.message@ == msg,
            Err(e) => r == Err::<RemoteError, PodError>(e),
        },
{
    let mut p: PodParser = PodParser::new(body);
    let mut s: PodParser = match p.struct_() {
        Ok(s) => s,
        Err(e) => {
            return Err(e);
        },
    };
    let object: i32 = match s.signed() {
        Ok(v) => v,
        Err(e) => {
            return Err(e);
        },
    };
    match s.signed() {
        Ok(_) => {},
        Err(e) => {
            return Err(e);
        },
    }
    let result: i32 = match s.signed() {
        Ok(v) => v,
        Err(e) => {
            return Err(e);
        },
    };
    match s.string() {
        Ok(message) => Ok(RemoteError { object, result, message }),
        Err(e) => Err(e),
    }
}

/// Two integers: a ping's id and sequence, or a done event's id and cookie.
pub open spec fn two_ints_spec(body: Seq<u8>) -> Result<(i32, i32), PodError> {
    match take_struct(body) {
        Err(e) => Err(e),
        Ok((s, _)) => match take_int(s) {
            Err(e) => Err(e),
            Ok((a, s1)) => match take_int(s1) {
                Err(e) => Err(e),
                Ok((b, _)) => Ok((a, b)),
            },
        },
    }
}

pub fn two_ints(body: &Vec<u8>) -> (r: Result<(i32, i32), PodError>)
    ensures
        r == two_ints_spec(body@),
{
    let mut p: PodParser = PodParser::new(body);
    let mut s: PodParser = match p.struct_() {
        Ok(s) => s,
        Err(e) => {
            return Err(e);
        },
    };
    let x: i32 = match s.signed() {
        Ok(v) => v,
        Err(e) => {
            return Err(e);
        },
    };
    match s.signed() {
        Ok(y) => Ok((x, y)),
        Err(e) => Err(e),
    }
}

/// What an unclaimed frame asks of the pump.
#[derive(Clone, Copy, Debug, PartialEq, Eq, Structural)]
pub enum Pump {
    /// answer a ping
    Pong { id: i32, seq: i32 },
    /// the daemon reported an error
    Fail,
    /// the daemon acked the cookie that was waited for
    Done,
    Continue,
}

/// The pump's reaction to a frame that the node did not claim; `cookie` is the
/// sync that is waited for, if any.
pub open spec fn pump_spec(f: Frame, cookie: Option<i32>) -> Result<Pump, PodError> {
    if f.id != 0 {
        Ok(Pump::Continue)
    } else if f.opcode == EV_CORE_PING {
        match two_ints_spec(f.body@) {
            Ok((id, seq)) => Ok(Pump::Pong { id, seq }),
            Err(e) => Err(e),
        }
    } else if f.opcode == EV_CORE_ERROR {
        Ok(Pump::Fail)
    } else if f.opcode == EV_CORE_DONE && cookie is Some {
        match two_ints_spec(f.body@) {
            Ok((_, c)) => Ok(if c == cookie->0 { Pump::Done } else { Pump::Continue }),
            Err(e) => Err(e),
        }
    } else {
        Ok(Pump::Continue)
    }
}

pub fn pump(f: &Frame, cookie: Option<i32>) -> (r: Result<Pump, PodError>)
    ensures
        r == pump_spec(*f, cookie),
{
    if f.id != 0 {
        return Ok(Pump::Continue);
    }
    if f.opcode == EV_CORE_PING {
        return match two_ints(&f.body) {
            Ok((id, seq)) => Ok(Pump::Pong { id, seq }),
            Err(e) => Err(e),
        };
    }
    if f.opcode == EV_CORE_ERROR {
        return Ok(Pump::Fail);
    }
    match cookie {
        Some(want) => {
            if f.opcode == EV_CORE_DONE {
                match two_ints(&f.body) {
                    Ok((_, c)) => Ok(if c == want { Pump::Done } else { Pump::Continue }),
                    Err(e) => Err(e),
                }
            } else {
                Ok(Pump::Continue)
            }
        },
        None => Ok(Pump::Continue),
    }
}

/// One channel of the moving test pattern at column `x`, row `y`.
pub open spec fn bar_byte(x: int, y: int, c: int, w: int, h: int, bar: int) -> u8 {
    let on = bar <= x < bar + w / 8;
    if c == 0 {
        if on { 40 } else { (x * 255 / w) as u8 }
    } else if c == 1 {
        if on { 220 } else { (y * 255 / h) as u8 }
    } else if c == 2 {
        if on { 120 } else { 60 }
    } else {
        255
    }
}

/// Byte `i` after painting: the pattern inside the picture, untouched outside.
pub open spec fn painted(before: Seq<u8>, i: int, stride: int, w: int, h: int, rows: int, bar: int) -> u8 {
    let y = i / stride;
    let col = i % stride;
    if y < rows && col < 4 * w {
        bar_byte(col / 4, y, col % 4, w, h, bar)
    } else {
        before[i]
    }
}

/// Painting got this far.
spec fn reached(i: int, stride: int, w: int, y: int, x: int) -> bool {
    (i / stride < y && i % stride < 4 * w) || (i / stride == y && i % stride < 4 * x)
}

proof fn place_in_rows(y: int, col: int, stride: int)
    requires
        0 <= y,
        0 <= col < stride,
    ensures
        (y * stride + col) / stride == y,
        (y * stride + col) % stride == col,
{
    vstd::arithmetic::div_mod::lemma_fundamental_div_mod_converse(y * stride + col, stride, y, col);
}

proof fn only_place(i: int, y: int, col: int, stride: int)
    requires
        stride > 0,
        i / stride == y,
        i % stride == col,
    ensures
        i == y * stride + col,
{
    vstd::arithmetic::div_mod::lemma_fundamental_div_mod(i, stride);
    assert(stride * y == y * stride) by (nonlinear_arith);
}

/// What the test pattern does next.
#[derive(Clone, Copy, Debug, PartialEq, Eq, Structural)]
pub enum Beat {
    /// its time is up
    Over,
    /// a round begins; the frame comes at `due`
    Begin { due: u64 },
    /// the frame is not due yet
    Wait,
    /// the frame is due, and nobody takes it
    Skip,
    /// the frame is due
    Paint,
}

/// Whether `secs` whole seconds have passed since `started`.
pub open spec fn time_is_up(started: u64, now: u64, secs: u64) -> bool {
    started <= now && (now - started) / 1_000_000_000 >= secs || now < started && secs == 0
}

/// The pattern's pacing at `now`, in nanoseconds. Between rounds (`due` is `None`)
/// it is over exactly when its time is up; a frame once begun is waited for, and is
/// painted if the stream is `ready` by then.
pub fn pattern_beat(started: u64, now: u64, due: Option<u64>, fps: u32, secs: u64, ready: bool) -> (b: Beat)
    requires
        0 < fps,
        now + 1_000_000_000 <= u64::MAX,
    ensures
        b is Over <==> due is None && time_is_up(started, now, secs),
        b == (match due {
            None => if time_is_up(started, now, secs) {
                Beat::Over
            } else {
                Beat::Begin { due: (now + 1_000_000_000int / (fps as int)) as u64 }
            },
            Some(d) => if now < d {
                Beat::Wait
            } else if ready {
                Beat::Paint
            } else {
                Beat::Skip
            },
        }),
{
    match due {
        None => {
            let gone: u64 = if started <= now { now - started } else { 0 };
            if gone / 1_000_000_000 >= secs {
                Beat::Over
            } else {
                let period: u64 = 1_000_000_000 / fps as u64;
                proof {
                    vstd::arithmetic::div_mod::lemma_div_is_ordered_by_denominator(1_000_000_000, 1, fps as int);
                    vstd::arithmetic::div_mod::lemma_div_pos_is_pos(1_000_000_000, fps as int);
                }
                Beat::Begin { due: now + period }
            }
        },
        Some(d) => if now < d {
            Beat::Wait
        } else if ready {
            Beat::Paint
        } else {
            Beat::Skip
        },
    }
}

/// Paints the moving test pattern into a picture of `h` rows of `w` pixels.
pub fn paint_bar(px: &mut Vec<u8>, stride: usize, w: usize, h: usize, tick: u64)
    requires
        0 < w,
        4 * w <= stride,
        w * 255 <= usize::MAX,
        h * 255 <= usize::MAX,
        tick * 4 <= usize::MAX,
    ensures
        final(px)@.len() == old(px)@.len(),
        ({
            let rows = if h < old(px)@.len() / stride as nat { h as int } else { (old(px)@.len() / stride as nat) as int };
            let bar = (tick * 4) % (w as int);
            forall|i: int|
                0 <= i < old(px)@.len() ==> #[trigger] final(px)@[i] == painted(
                    old(px)@,
                    i,
                    stride as int,
                    w as int,
                    h as int,
                    rows,
                    bar,
                )
        }),
{
    let ghost before = px@;
    let len: usize = px.len();
    let bar: usize = (tick as usize * 4) % w;
    let fit: usize = len / stride;
    let rows: usize = if h < fit { h } else { fit };
    let mut y: usize = 0;
    proof {
        vstd::arithmetic::div_mod::lemma_fundamental_div_mod(len as int, stride as int);
        assert(fit * stride == stride * fit) by (nonlinear_arith);
        assert forall|i: int| 0 <= i < len implies !#[trigger] reached(i, stride as int, w as int, 0, 0) by {
            assert(i / (stride as int) >= 0) by (nonlinear_arith)
                requires
                    i >= 0,
                    stride > 0,
            ;
            assert(i % (stride as int) >= 0);
        }
    }
    while y < rows
        invariant
            len == px@.len(),
            len == before.len(),
            0 < w,
            4 * w <= stride,
            w * 255 <= usize::MAX,
            h * 255 <= usize::MAX,
            rows <= h,
            rows <= fit,
            bar < w,
            fit * stride <= len,
            y <= rows,
            forall|i: int|
                0 <= i < len ==> #[trigger] px@[i] == (if reached(i, stride as int, w as int, y as int, 0) {
                    bar_byte(
                        (i % stride as int) / 4,
                        i / stride as int,
                        (i % stride as int) % 4,
                        w as int,
                        h as int,
                        bar as int,
                    )
                } else {
                    before[i]
                }),
        decreases rows - y,
    {
        proof {
            assert(y * stride + stride <= fit * stride) by (nonlinear_arith)
                requires
                    y + 1 <= fit,
                    stride > 0,
            ;
        }
        let base: usize = y * stride;
        let mut x: usize = 0;
        while x < w
            invariant
                len == px@.len(),
                len == before.len(),
                0 < w,
                4 * w <= stride,
                w * 255 <= usize::MAX,
                h * 255 <= usize::MAX,
                y < rows <= h,
                bar < w,
                base == y * stride,
                base + stride <= len,
                x <= w,
                forall|i: int|
                    0 <= i < len ==> #[trigger] px@[i] == (if reached(
                        i,
                        stride as int,
                        w as int,
                        y as int,
                        x as int,
                    ) {
                        bar_byte(
                            (i % stride as int) / 4,
                            i / stride as int,
                            (i % stride as int) % 4,
                            w as int,
                            h as int,
                            bar as int,
                        )
                    } else {
                        before[i]
                    }),
            decreases w - x,
        {
            let ghost mid = px@;
            let o: usize = base + x * 4;
            proof {
                assert(0 <= x * 255 / (w as int) <= 255) by (nonlinear_arith)
                    requires
                        0 <= x < w,
                ;
                assert(0 <= y * 255 / (h as int) <= 255) by (nonlinear_arith)
                    requires
                        0 <= y < h,
                ;
                assert(x * 255 <= w * 255 && y * 255 <= h * 255);
                place_in_rows(y as int, 4 * x as int, stride as int);
                place_in_rows(y as int, 4 * x + 1, stride as int);
                place_in_rows(y as int, 4 * x + 2, stride as int);
                place_in_rows(y as int, 4 * x + 3, stride as int);
            }
            let on: bool = x >= bar && x - bar < w / 8;
            let b: u8 = if on { 40 } else { (x * 255 / w) as u8 };
            let g: u8 = if on { 220 } else { (y * 255 / h) as u8 };
            let r: u8 = if on { 120 } else { 60 };
            px.set(o, b);
            px.set(o + 1, g);
            px.set(o + 2, r);
            px.set(o + 3, 255);
            proof {
                assert forall|i: int| 0 <= i < len implies #[trigger] px@[i] == (if reached(
                    i,
                    stride as int,
                    w as int,
                    y as int,
                    x + 1,
                ) {
                    bar_byte(
                        (i % stride as int) / 4,
                        i / stride as int,
                        (i % stride as int) % 4,
                        w as int,
                        h as int,
                        bar as int,
                    )
                } else {
                    before[i]
                }) by {
                    let c = i - o;
                    if 0 <= c < 4 {
                        assert(i == y * stride + (4 * x + c));
                    } else {
                        assert(px@[i] == mid[i]);
                        if i / (stride as int) == y && 4 * x <= i % (stride as int) < 4 * x + 4 {
                            only_place(i, y as int, i % (stride as int), stride as int);
                        }
                    }
                }
            }
            x = x + 1;
        }
        proof {
            assert forall|i: int| 0 <= i < len implies reached(i, stride as int, w as int, y as int, w as int)
                == #[trigger] reached(i, stride as int, w as int, y + 1, 0) by {
                assert(i % (stride as int) >= 0);
            }
        }
        y = y + 1;
    }
    proof {
        assert(px@.len() == before.len());
        assert forall|i: int| 0 <= i < len implies #[trigger] px@[i] == painted(
            before,
            i,
            stride as int,
            w as int,
            h as int,
            rows as int,
            bar as int,
        ) by {
            assert(reached(i, stride as int, w as int, rows as int, 0) == (i / (stride as int) < rows && i % (
            stride as int) < 4 * w)) by {
                assert(i % (stride as int) >= 0);
            }
        }
    }
}


/// The daemon's greeting.
pub struct CoreInfo {
    pub user: Vec<u8>,
    pub host: Vec<u8>,
    pub version: Vec<u8>,
    pub name: Vec<u8>,
}

/// `n` strings in a row.
pub open spec fn strings_spec(s: Seq<u8>, n: nat) -> Result<(Seq<Seq<u8>>, Seq<u8>), PodError>
    decreases n,
{
    if n == 0 {
        Ok((Seq::empty(), s))
    } else {
        match strings_spec(s, (n - 1) as nat) {
            Err(e) => Err(e),
            Ok((have, rest)) => match take_string(rest) {
                Err(e) => Err(e),
                Ok((t, after)) => Ok((have.push(t), after)),
            },
        }
    }
}

/// Id, cookie, then user, host, version and name.
pub open spec fn info_spec(body: Seq<u8>) -> Result<Seq<Seq<u8>>, PodError> {
    match take_struct(body) {
        Err(e) => Err(e),
        Ok((s, _)) => match take_int(s) {
            Err(e) => Err(e),
            Ok((_, s1)) => match take_int(s1) {
                Err(e) => Err(e),
                Ok((_, s2)) => match strings_spec(s2, 4) {
                    Err(e) => Err(e),
                    Ok((t, _)) => Ok(t),
                },
            },
        },
    }
}

/// One string that cannot be read spoils the whole row.
proof fn strings_fail(s: Seq<u8>, i: nat, n: nat)
    requires
        strings_spec(s, i) is Err,
        i <= n,
    ensures
        strings_spec(s, n) == strings_spec(s, i),
    decreases n,
{
    if i < n {
        strings_fail(s, i, (n - 1) as nat);
    }
}

/// Reads `n` strings.
fn strings(p: &mut PodParser, n: usize) -> (r: Result<Vec<Vec<u8>>, PodError>)
    requires
        old(p).wf(),
    ensures
        final(p).wf(),
        match strings_spec(old(p).rest(), n as nat) {
            Ok((t, _)) => r matches Ok(v) && v@.len() == n && t.len() == n && (forall|i: int|
                0 <= i < n ==> (#[trigger] v@[i])@ == t[i]),
            Err(e) => r == Err::<Vec<Vec<u8>>, PodError>(e),
        },
{
    let ghost start = p.rest();
    let mut v: Vec<Vec<u8>> = Vec::new();
    let ghost mut have: Seq<Seq<u8>> = Seq::empty();
    for i in 0..n
        invariant
            p.wf(),
            start == old(p).rest(),
            strings_spec(start, i as nat) == Ok::<(Seq<Seq<u8>>, Seq<u8>), PodError>((have, p.rest())),
            v@.len() == i,
            have.len() == i,
            forall|j: int| 0 <= j < i ==> (#[trigger] v@[j])@ == have[j],
    {
        match p.string() {
            Ok(t) => {
                proof {
                    have = have.push(t@);
                }
                v.push(t);
            },
            Err(e) => {
                proof {
                    assert(strings_spec(start, (i + 1) as nat) is Err);
                    strings_fail(start, (i + 1) as nat, n as nat);
                }
                return Err(e);
            },
        }
    }
    Ok(v)
}

pub fn core_info(body: &Vec<u8>) -> (r: Result<CoreInfo, PodError>)
    ensures
        match info_spec(body@) {
            Ok(t) => r matches Ok(i) && t =~= seq![i.user@, i.host@, i.version@, i.name@],
            Err(e) => r == Err::<CoreInfo, PodError>(e),
        },
{
    let mut p: PodParser = PodParser::new(body);
    let mut s: PodParser = match p.struct_() {
        Ok(s) => s,
        Err(e) => {
            return Err(e);
        },
    };
    match s.signed() {
        Ok(_) => {},
        Err(e) => {
            return Err(e);
        },
    }
    match s.signed() {
        Ok(_) => {},
        Err(e) => {
            return Err(e);
        },
    }
    match strings(&mut s, 4) {
        Err(e) => Err(e),
        Ok(mut v) => {
            let name: Vec<u8> = v.remove(3);
            let version: Vec<u8> = v.remove(2);
            let host: Vec<u8> = v.remove(1);
            let user: Vec<u8> = v.remove(0);
            Ok(CoreInfo { user, host, version, name })
        },
    }
}

/// A global of the registry.
pub struct Global {
    pub id: u32,
    pub ty: Vec<u8>,
    pub version: u32,
    pub props: Vec<(Vec<u8>, Vec<u8>)>,
}

/// The properties of a list of pairs.
pub open spec fn props_view(props: Seq<(Vec<u8>, Vec<u8>)>) -> Seq<(Seq<u8>, Seq<u8>)> {
    Seq::new(props.len(), |i: int| (props[i].0@, props[i].1@))
}

/// `n` keys and values in a row.
pub open spec fn pairs_spec(s: Seq<u8>, n: nat, have: Seq<(Seq<u8>, Seq<u8>)>) -> Result<Seq<(Seq<u8>, Seq<u8>)>, PodError>
    decreases n,
{
    if n == 0 {
        Ok(have)
    } else {
        match take_string(s) {
            Err(e) => Err(e),
            Ok((k, s1)) => match take_string(s1) {
                Err(e) => Err(e),
                Ok((v, s2)) => pairs_spec(s2, (n - 1) as nat, have.push((k, v))),
            },
        }
    }
}

/// A dictionary: a count, then that many pairs.
pub open spec fn dict_spec(s: Seq<u8>) -> Result<Seq<(Seq<u8>, Seq<u8>)>, PodError> {
    match take_struct(s) {
        Err(e) => Err(e),
        Ok((body, _)) => match take_word(body, T_INT) {
            Err(e) => Err(e),
            Ok((n, rest)) => pairs_spec(rest, n as nat, Seq::empty()),
        },
    }
}

/// Reads a dictionary.
pub fn read_dict(p: &mut PodParser) -> (r: Result<Vec<(Vec<u8>, Vec<u8>)>, PodError>)
    requires
        old(p).wf(),
    ensures
        final(p).wf(),
        final(p).rest() == past_pod(old(p).rest()),
        match dict_spec(old(p).rest()) {
            Ok(d) => r matches Ok(v) && props_view(v@) == d,
            Err(e) => r == Err::<Vec<(Vec<u8>, Vec<u8>)>, PodError>(e),
        },
{
    let mut s: PodParser = match p.struct_() {
        Ok(s) => s,
        Err(e) => {
            return Err(e);
        },
    };
    let n: u32 = match s.uint() {
        Ok(n) => n,
        Err(e) => {
            return Err(e);
        },
    };
    read_pairs(&mut s, n)
}

fn read_pairs(s: &mut PodParser, n: u32) -> (r: Result<Vec<(Vec<u8>, Vec<u8>)>, PodError>)
    requires
        old(s).wf(),
    ensures
        match pairs_spec(old(s).rest(), n as nat, Seq::empty()) {
            Ok(d) => r matches Ok(v) && props_view(v@) == d,
            Err(e) => r == Err::<Vec<(Vec<u8>, Vec<u8>)>, PodError>(e),
        },
{
    let mut out: Vec<(Vec<u8>, Vec<u8>)> = Vec::new();
    assert(props_view(out@) =~= Seq::<(Seq<u8>, Seq<u8>)>::empty());
    let mut left: u32 = n;
    while left > 0
        invariant
            s.wf(),
            pairs_spec(old(s).rest(), n as nat, Seq::empty()) == pairs_spec(
                s.rest(),
                left as nat,
                props_view(out@),
            ),
        decreases left,
    {
        let k: Vec<u8> = match s.string() {
            Ok(t) => t,
            Err(e) => {
                return Err(e);
            },
        };
        let v: Vec<u8> = match s.string() {
            Ok(t) => t,
            Err(e) => {
                return Err(e);
            },
        };
        let ghost had = props_view(out@);
        let ghost pair = (k@, v@);
        out.push((k, v));
        assert(props_view(out@) =~= had.push(pair));
        left = left - 1;
    }
    Ok(out)
}

/// Id, permissions, type, version, properties; a missing or malformed
/// dictionary counts as empty.
pub open spec fn global_spec(body: Seq<u8>) -> Result<(u32, Seq<u8>, u32, Seq<(Seq<u8>, Seq<u8>)>), PodError> {
    match take_struct(body) {
        Err(e) => Err(e),
        Ok((s, _)) => match take_word(s, T_INT) {
            Err(e) => Err(e),
            Ok((id, s1)) => match take_word(s1, T_INT) {
                Err(e) => Err(e),
                Ok((_, s2)) => match take_string(s2) {
                    Err(e) => Err(e),
                    Ok((ty, s3)) => match take_word(s3, T_INT) {
                        Err(e) => Err(e),
                        Ok((version, s4)) => Ok(
                            (
                                id,
                                ty,
                                version,
                                match dict_spec(s4) {
                                    Ok(d) => d,
                                    Err(_) => Seq::empty(),
                                },
                            ),
                        ),
                    },
                },
            },
        },
    }
}

pub fn registry_global(body: &Vec<u8>) -> (r: Result<Global, PodError>)
    ensures
        match global_spec(body@) {
            Ok((id, ty, version, props)) => r matches Ok(g) && g.id == id && g.ty@ == ty && g.version == version
                && props_view(g.props@) == props,
            Err(e) => r == Err::<Global, PodError>(e),
        },
{
    let mut p: PodParser = PodParser::new(body);
    let mut s: PodParser = match p.struct_() {
        Ok(s) => s,
        Err(e) => {
            return Err(e);
        },
    };
    let id: u32 = match s.uint() {
        Ok(v) => v,
        Err(e) => {
            return Err(e);
        },
    };
    match s.uint() {
        Ok(_) => {},
        Err(e) => {
            return Err(e);
        },
    }
    let ty: Vec<u8> = match s.string() {
        Ok(t) => t,
        Err(e) => {
            return Err(e);
        },
    };
    let version: u32 = match s.uint() {
        Ok(v) => v,
        Err(e) => {
            return Err(e);
        },
    };
    let props: Vec<(Vec<u8>, Vec<u8>)> = match read_dict(&mut s) {
        Ok(d) => d,
        Err(_) => {
            let none: Vec<(Vec<u8>, Vec<u8>)> = Vec::new();
            assert(props_view(none@) =~= Seq::<(Seq<u8>, Seq<u8>)>::empty());
            none
        },
    };
    Ok(Global { id, ty, version, props })
}

pub open spec fn has_key(key: Seq<u8>) -> spec_fn((Seq<u8>, Seq<u8>)) -> bool {
    |p: (Seq<u8>, Seq<u8>)| p.0 == key
}

/// The tag shown for a global: the value of the first of these keys that is
/// present.
pub open spec fn tag_spec(props: Seq<(Seq<u8>, Seq<u8>)>, keys: Seq<Seq<u8>>) -> Option<int>
    decreases keys.len(),
{
    if keys.len() == 0 {
        None
    } else {
        match crate::output::first_slot(props, has_key(keys[0])) {
            Some(k) => Some(k),
            None => tag_spec(props, keys.skip(1)),
        }
    }
}

fn same_bytes(a: &Vec<u8>, b: &Vec<u8>) -> (r: bool)
    ensures
        r == (a@ == b@),
{
    if a.len() != b.len() {
        return false;
    }
    for i in 0..a.len()
        invariant
            a@.len() == b@.len(),
            forall|j: int| 0 <= j < i ==> a@[j] == b@[j],
    {
        if a[i] != b[i] {
            assert(a@[i as int] != b@[i as int]);
            return false;
        }
    }
    assert(a@ =~= b@);
    true
}

fn find_key(props: &Vec<(Vec<u8>, Vec<u8>)>, key: &Vec<u8>) -> (r: Option<usize>)
    ensures
        match r {
            Some(k) => crate::output::first_slot(props_view(props@), has_key(key@)) == Some(k as int) && k
                < props@.len(),
            None => crate::output::first_slot(props_view(props@), has_key(key@)) is None,
        },
{
    for i in 0..props.len()
        invariant
            forall|j: int| 0 <= j < i ==> !has_key(key@)(#[trigger] props_view(props@)[j]),
    {
        if same_bytes(&props[i].0, key) {
            proof {
                crate::output::first_slot_found(props_view(props@), has_key(key@), i as int);
            }
            return Some(i);
        }
    }
    proof {
        crate::output::first_slot_absent(props_view(props@), has_key(key@));
    }
    None
}

/// Which property names a global, by key preference.
pub fn global_tag(props: &Vec<(Vec<u8>, Vec<u8>)>, keys: &Vec<Vec<u8>>) -> (r: Option<usize>)
    ensures
        match r {
            Some(k) => tag_spec(props_view(props@), keys.deep_view()) == Some(k as int) && k < props@.len(),
            None => tag_spec(props_view(props@), keys.deep_view()) is None,
        },
{
    let ghost ks = keys.deep_view();
    assert(ks.skip(0) =~= ks);
    for i in 0..keys.len()
        invariant
            ks == keys.deep_view(),
            ks.len() == keys@.len(),
            tag_spec(props_view(props@), ks) == tag_spec(props_view(props@), ks.skip(i as int)),
    {
        proof {
            assert(ks[i as int] == keys@[i as int]@) by {
                assert(ks[i as int] =~= keys@[i as int].deep_view());
                assert(keys@[i as int].deep_view() =~= keys@[i as int]@);
            }
            assert(ks.skip(i as int)[0] == ks[i as int]);
            assert(ks.skip(i as int).skip(1) =~= ks.skip(i + 1));
        }
        match find_key(props, &keys[i]) {
            Some(k) => {
                return Some(k);
            },
            None => {},
        }
    }
    None
}

/// The registry object of a probe, and the cookie that ends it.
pub const PROBE_REGISTRY: u32 = 2;

pub const PROBE_COOKIE: i32 = 0x5eed;

/// What a frame tells someone who lists the daemon's globals.
pub enum Probed {
    Core(CoreInfo),
    /// a global, and which of its properties names it
    Global(Global, Option<usize>),
    /// answer a ping
    Pong { id: i32, seq: i32 },
    Remote(RemoteError),
    /// everything was listed
    Over,
    Other,
}

/// The properties that name a global, the best first.
pub open spec fn tag_keys() -> Seq<Seq<u8>> {
    seq![
        utf8_of("node.name"@),
        utf8_of("media.class"@),
        utf8_of("application.name"@),
        utf8_of("metadata.name"@),
    ]
}

/// The index of the property that names a global.
pub open spec fn tag_is(props: Seq<(Seq<u8>, Seq<u8>)>, tag: Option<usize>) -> bool {
    match tag {
        Some(k) => tag_spec(props, tag_keys()) == Some(k as int),
        None => tag_spec(props, tag_keys()) is None,
    }
}

/// What a frame tells.
pub open spec fn probed(f: Frame, r: Result<Probed, PodError>) -> bool {
    if f.id == 0 && f.opcode == EV_CORE_INFO {
        match info_spec(f.body@) {
            Ok(t) => r matches Ok(Probed::Core(i)) && t == seq![i.user@, i.host@, i.version@, i.name@],
            Err(e) => r == Err::<Probed, PodError>(e),
        }
    } else if f.id == 0 && f.opcode == EV_CORE_DONE {
        match two_ints_spec(f.body@) {
            Ok((_, c)) => r == Ok::<Probed, PodError>(if c == PROBE_COOKIE { Probed::Over } else { Probed::Other }),
            Err(e) => r == Err::<Probed, PodError>(e),
        }
    } else if f.id == 0 && f.opcode == EV_CORE_PING {
        match two_ints_spec(f.body@) {
            Ok((id, seq)) => r == Ok::<Probed, PodError>(Probed::Pong { id, seq }),
            Err(e) => r == Err::<Probed, PodError>(e),
        }
    } else if f.id == 0 && f.opcode == EV_CORE_ERROR {
        match remote_error_spec(f.body@) {
            Ok((object, result, msg)) => r matches Ok(Probed::Remote(e)) && e.object == object && e.result == result
                && e.message@ == msg,
            Err(e) => r == Err::<Probed, PodError>(e),
        }
    } else if f.id == PROBE_REGISTRY && f.opcode == EV_REGISTRY_GLOBAL {
        match global_spec(f.body@) {
            Ok((id, ty, version, props)) => r matches Ok(Probed::Global(g, tag)) && g.id == id && g.ty@ == ty
                && g.version == version && props_view(g.props@) == props && tag_is(props, tag),
            Err(e) => r == Err::<Probed, PodError>(e),
        }
    } else {
        r == Ok::<Probed, PodError>(Probed::Other)
    }
}

fn tag_key_list() -> (r: Vec<Vec<u8>>)
    ensures
        r.deep_view() == tag_keys(),
{
    let mut v: Vec<Vec<u8>> = Vec::new();
    v.push(text_bytes("node.name"));
    v.push(text_bytes("media.class"));
    v.push(text_bytes("application.name"));
    v.push(text_bytes("metadata.name"));
    assert forall|i: int| 0 <= i < 4 implies #[trigger] v@[i].deep_view() == v@[i]@ by {
        assert(v@[i].deep_view() =~= v@[i]@);
    }
    assert(v.deep_view() =~= tag_keys());
    v
}

/// Reads one frame of a probe and counts the globals.
pub fn probe(f: &Frame, globals: &mut u32) -> (r: Result<Probed, PodError>)
    requires
        *old(globals) < u32::MAX,
    ensures
        probed(*f, r),
        *final(globals) == *old(globals) + (if r is Ok && r->Ok_0 is Global { 1int } else { 0 }),
{
    if f.id == 0 && f.opcode == EV_CORE_INFO {
        return match core_info(&f.body) {
            Ok(i) => Ok(Probed::Core(i)),
            Err(e) => Err(e),
        };
    }
    if f.id == 0 && f.opcode == EV_CORE_DONE {
        return match two_ints(&f.body) {
            Ok((_, c)) => Ok(if c == PROBE_COOKIE { Probed::Over } else { Probed::Other }),
            Err(e) => Err(e),
        };
    }
    if f.id == 0 && f.opcode == EV_CORE_PING {
        return match two_ints(&f.body) {
            Ok((id, seq)) => Ok(Probed::Pong { id, seq }),
            Err(e) => Err(e),
        };
    }
    if f.id == 0 && f.opcode == EV_CORE_ERROR {
        return match remote_error(&f.body) {
            Ok(e) => Ok(Probed::Remote(e)),
            Err(e) => Err(e),
        };
    }
    if f.id == PROBE_REGISTRY && f.opcode == EV_REGISTRY_GLOBAL {
        return match registry_global(&f.body) {
            Ok(g) => {
                let keys: Vec<Vec<u8>> = tag_key_list();
                let tag: Option<usize> = global_tag(&g.props, &keys);
                *globals = *globals + 1;
                Ok(Probed::Global(g, tag))
            },
            Err(e) => Err(e),
        };
    }
    Ok(Probed::Other)
}

} // verus!
