//! The wire format: arguments, messages, and the readers and writers between them
//! and bytes. Words are little endian; strings and arrays carry their length and are
//! filled up to whole words; file descriptors travel beside the bytes.
use crate::bytes::{bits_of, from_bits, le32_spec, put_le32, put_zeros, read32_spec, signed_of, to_bits, zeros};
use crate::protocol::{Fixed, ObjectId};
use vstd::prelude::*;
use vstd::utf8::{encode_utf8, valid_utf8};

verus! {

/// A request or event of an interface.
#[derive(Clone, Copy, Debug)]
pub struct Message {
    pub name: &'static str,
    /// first version of the interface that has it
    pub since: u32,
    /// one letter per argument
    pub args: &'static str,
}

/// Why a body is refused.
#[derive(Clone, Copy, Debug, PartialEq, Eq, Structural)]
pub enum WireError {
    Truncated,
    TrailingData,
    BadString,
    MissingFd,
}

impl WireError {
    pub open spec fn text_spec(self) -> Seq<char> {
        match self {
            WireError::Truncated => "message truncated"@,
            WireError::TrailingData => "trailing data"@,
            WireError::BadString => "bad string"@,
            WireError::MissingFd => "missing fd"@,
        }
    }

    pub fn text(&self) -> (r: &'static str)
        ensures
            r@ == self.text_spec(),
    {
        match self {
            WireError::Truncated => "message truncated",
            WireError::TrailingData => "trailing data",
            WireError::BadString => "bad string",
            WireError::MissingFd => "missing fd",
        }
    }
}

/// An argument.
pub enum Arg {
    Int(i32),
    Uint(u32),
    Fixed(Fixed),
    Object(ObjectId),
    NewId(ObjectId),
    Text(String),
    OptText(Option<String>),
    Array(Vec<u8>),
    Fd(u32),
}

/// An argument as a contract speaks of it.
pub enum ArgV {
    Int(i32),
    Uint(u32),
    Fixed(Fixed),
    Object(ObjectId),
    NewId(ObjectId),
    Text(Seq<char>),
    OptText(Option<Seq<char>>),
    Array(Seq<u8>),
    Fd(u32),
}

impl View for Arg {
    type V = ArgV;

    open spec fn view(&self) -> ArgV {
        match *self {
            Arg::Int(v) => ArgV::Int(v),
            Arg::Uint(v) => ArgV::Uint(v),
            Arg::Fixed(v) => ArgV::Fixed(v),
            Arg::Object(v) => ArgV::Object(v),
            Arg::NewId(v) => ArgV::NewId(v),
            Arg::Text(s) => ArgV::Text(s@),
            Arg::OptText(None) => ArgV::OptText(None),
            Arg::OptText(Some(s)) => ArgV::OptText(Some(s@)),
            Arg::Array(v) => ArgV::Array(v@),
            Arg::Fd(v) => ArgV::Fd(v),
        }
    }
}

pub open spec fn views(args: Seq<Arg>) -> Seq<ArgV> {
    args.map_values(|a: Arg| a@)
}

/// The letter of an argument.
pub open spec fn letter(a: ArgV) -> char {
    match a {
        ArgV::Int(_) => 'i',
        ArgV::Uint(_) => 'u',
        ArgV::Fixed(_) => 'f',
        ArgV::Object(_) => 'o',
        ArgV::NewId(_) => 'n',
        ArgV::Text(_) => 's',
        ArgV::OptText(_) => 'S',
        ArgV::Array(_) => 'a',
        ArgV::Fd(_) => 'h',
    }
}

pub open spec fn is_letter(c: char) -> bool {
    c == 'i' || c == 'u' || c == 'f' || c == 'o' || c == 'n' || c == 's' || c == 'S' || c == 'a' || c == 'h'
}

/// A list of argument letters.
pub open spec fn signature(s: Seq<char>) -> bool {
    forall|i: int| 0 <= i < s.len() ==> is_letter(#[trigger] s[i])
}

// -- writing --

/// Bytes that fill `n` up to a whole word.
pub open spec fn fill(n: nat) -> nat {
    ((4 - n % 4) % 4) as nat
}

/// A length, the bytes, and the fill.
pub open spec fn block(data: Seq<u8>) -> Seq<u8> {
    le32_spec(data.len() as u32) + data + zeros(fill(data.len()))
}

/// The bytes of a string with its terminator.
pub open spec fn terminated(s: Seq<char>) -> Seq<u8> {
    encode_utf8(s).push(0)
}

/// The bytes of an argument. Descriptors have none.
pub open spec fn encode(a: ArgV) -> Seq<u8> {
    match a {
        ArgV::Int(v) => le32_spec(bits_of(v)),
        ArgV::Uint(v) => le32_spec(v),
        ArgV::Fixed(v) => le32_spec(bits_of(v.0)),
        ArgV::Object(v) => le32_spec(v.0),
        ArgV::NewId(v) => le32_spec(v.0),
        ArgV::Text(s) => block(terminated(s)),
        ArgV::OptText(None) => le32_spec(0),
        ArgV::OptText(Some(s)) => block(terminated(s)),
        ArgV::Array(v) => block(v),
        ArgV::Fd(_) => Seq::empty(),
    }
}

pub open spec fn encode_all(args: Seq<ArgV>) -> Seq<u8>
    decreases args.len(),
{
    if args.len() == 0 {
        Seq::empty()
    } else {
        encode(args[0]) + encode_all(args.skip(1))
    }
}

/// The descriptors among the arguments.
pub open spec fn fds_of(args: Seq<ArgV>) -> Seq<u32>
    decreases args.len(),
{
    if args.len() == 0 {
        Seq::empty()
    } else {
        match args[0] {
            ArgV::Fd(f) => seq![f] + fds_of(args.skip(1)),
            _ => fds_of(args.skip(1)),
        }
    }
}

/// A message: the object, then size and opcode in one word, then the arguments.
pub open spec fn message_bytes(id: ObjectId, opcode: u32, args: Seq<ArgV>) -> Seq<u8> {
    let body = encode_all(args);
    le32_spec(id.0) + le32_spec(((8 + body.len()) * 65536 + opcode) as u32) + body
}

/// Outgoing bytes and the descriptors that go with them.
pub struct EventOut {
    pub bytes: Vec<u8>,
    pub fds: Vec<u32>,
}

/// A text fits in an argument.
pub open spec fn short(a: ArgV) -> bool {
    match a {
        ArgV::Text(s) => encode_utf8(s).len() < 0x1_0000,
        ArgV::OptText(Some(s)) => encode_utf8(s).len() < 0x1_0000,
        ArgV::Array(v) => v.len() < 0x1_0000,
        _ => true,
    }
}

fn put_block(out: &mut Vec<u8>, data: &[u8], terminate: bool)
    requires
        data@.len() < 0x1_0000,
    ensures
        final(out)@ == old(out)@ + block(if terminate { data@.push(0) } else { data@ }),
{
    let ghost had = out@;
    let ghost whole = if terminate { data@.push(0) } else { data@ };
    let n: usize = if terminate { data.len() + 1 } else { data.len() };
    put_le32(out, n as u32);
    let ghost sized = out@;
    for i in 0..data.len()
        invariant
            out@ == sized + data@.take(i as int),
    {
        out.push(data[i]);
        assert(out@ =~= sized + data@.take(i + 1));
    }
    assert(data@.take(data@.len() as int) =~= data@);
    if terminate {
        out.push(0);
        assert(out@ =~= sized + whole);
    }
    put_zeros(out, (4 - n % 4) % 4);
    assert(out@ =~= had + block(whole));
}

impl EventOut {
    pub fn new() -> (o: EventOut)
        ensures
            o.bytes@.len() == 0,
            o.fds@.len() == 0,
    {
        EventOut { bytes: Vec::new(), fds: Vec::new() }
    }

    fn put(&mut self, a: &Arg)
        requires
            short(a@),
        ensures
            final(self).bytes@ == old(self).bytes@ + encode(a@),
            final(self).fds@ == old(self).fds@ + fds_of(seq![a@]),
    {
        let ghost had = self.bytes@;
        let ghost held = self.fds@;
        proof {
            reveal_with_fuel(fds_of, 2);
            assert(seq![a@].skip(1) =~= Seq::<ArgV>::empty());
        }
        match a {
            Arg::Int(v) => {
                put_le32(&mut self.bytes, to_bits(*v));
            },
            Arg::Uint(v) => {
                put_le32(&mut self.bytes, *v);
            },
            Arg::Fixed(v) => {
                put_le32(&mut self.bytes, to_bits(v.0));
            },
            Arg::Object(v) => {
                put_le32(&mut self.bytes, v.0);
            },
            Arg::NewId(v) => {
                put_le32(&mut self.bytes, v.0);
            },
            Arg::Text(s) => {
                put_block(&mut self.bytes, s.as_str().as_bytes(), true);
            },
            Arg::OptText(None) => {
                put_le32(&mut self.bytes, 0);
            },
            Arg::OptText(Some(s)) => {
                put_block(&mut self.bytes, s.as_str().as_bytes(), true);
            },
            Arg::Array(v) => {
                put_block(&mut self.bytes, v.as_slice(), false);
            },
            Arg::Fd(f) => {
                self.fds.push(*f);
            },
        }
        assert(self.bytes@ =~= had + encode(a@));
        assert(self.fds@ =~= held + fds_of(seq![a@]));
    }

    /// Appends a message.
    pub fn send(&mut self, id: ObjectId, opcode: u32, args: &Vec<Arg>)
        requires
            opcode < 0x1_0000,
            forall|i: int| 0 <= i < args@.len() ==> short((#[trigger] args@[i])@),
            8 + encode_all(views(args@)).len() < 0x1_0000,
        ensures
            final(self).bytes@ == old(self).bytes@ + message_bytes(id, opcode, views(args@)),
            final(self).fds@ == old(self).fds@ + fds_of(views(args@)),
    {
        let mut body: EventOut = EventOut::new();
        let ghost all = views(args@);
        assert(body.bytes@ =~= encode_all(all.take(0)));
        assert(body.fds@ =~= fds_of(all.take(0)));
        for i in 0..args.len()
            invariant
                all == views(args@),
                forall|j: int| 0 <= j < args@.len() ==> short((#[trigger] args@[j])@),
                body.bytes@ == encode_all(all.take(i as int)),
                body.fds@ == fds_of(all.take(i as int)),
        {
            proof {
                assert(all.take(i + 1) =~= all.take(i as int) + seq![args@[i as int]@]);
                encode_concat(all.take(i as int), seq![args@[i as int]@]);
                encode_single(args@[i as int]@);
                assert(short(args@[i as int]@));
            }
            body.put(&args[i]);
        }
        assert(all.take(args@.len() as int) =~= all);
        let size: u32 = 8 + body.bytes.len() as u32;
        let ghost had = self.bytes@;
        put_le32(&mut self.bytes, id.0);
        put_le32(&mut self.bytes, size * 65536 + opcode);
        crate::bytes::put_all(&mut self.bytes, &body.bytes);
        assert(self.bytes@ =~= had + message_bytes(id, opcode, all));
        for i in 0..body.fds.len()
            invariant
                self.fds@ == old(self).fds@ + body.fds@.take(i as int),
                self.bytes@ == old(self).bytes@ + message_bytes(id, opcode, all),
        {
            self.fds.push(body.fds[i]);
            assert(self.fds@ =~= old(self).fds@ + body.fds@.take(i + 1));
        }
        assert(body.fds@.take(body.fds@.len() as int) =~= body.fds@);
    }
}

proof fn encode_single(a: ArgV)
    ensures
        encode_all(seq![a]) == encode(a),
{
    assert(seq![a].skip(1) =~= Seq::<ArgV>::empty());
    reveal_with_fuel(encode_all, 2);
    assert(encode_all(seq![a]) =~= encode(a));
}

proof fn encode_concat(a: Seq<ArgV>, b: Seq<ArgV>)
    ensures
        encode_all(a + b) == encode_all(a) + encode_all(b),
        fds_of(a + b) == fds_of(a) + fds_of(b),
    decreases a.len(),
{
    if a.len() == 0 {
        assert(a + b =~= b);
        assert(encode_all(a + b) =~= encode_all(a) + encode_all(b));
        assert(fds_of(a + b) =~= fds_of(a) + fds_of(b));
    } else {
        encode_concat(a.skip(1), b);
        assert((a + b).skip(1) =~= a.skip(1) + b);
        assert((a + b)[0] == a[0]);
        assert(encode_all(a + b) =~= encode_all(a) + encode_all(b));
        assert(fds_of(a + b) =~= fds_of(a) + fds_of(b));
    }
}

// -- reading --

/// What is left to read, and what was read.
pub struct ReadV {
    pub arg: ArgV,
    pub rest: Seq<u8>,
    pub fds: Seq<u32>,
}

/// Arguments of a whole body, and the descriptors it left.
pub struct ParsedV {
    pub args: Seq<ArgV>,
    pub fds: Seq<u32>,
}

/// The contents of a block and what follows it.
pub open spec fn read_block(body: Seq<u8>) -> Result<(Seq<u8>, Seq<u8>), WireError> {
    if body.len() < 4 {
        Err(WireError::Truncated)
    } else {
        let n = read32_spec(body.take(4)) as nat;
        if body.len() < 4 + n + fill(n) {
            Err(WireError::Truncated)
        } else {
            Ok((body.subrange(4, 4 + n as int), body.skip((4 + n + fill(n)) as int)))
        }
    }
}

/// A string ends in its terminator and is text before it.
pub open spec fn text_in(data: Seq<u8>) -> Result<Seq<char>, WireError> {
    if data.len() == 0 || data.last() != 0 || !valid_utf8(data.drop_last()) {
        Err(WireError::BadString)
    } else {
        Ok(vstd::utf8::decode_utf8(data.drop_last()))
    }
}

/// One argument off the front of a body.
pub open spec fn read_arg(c: char, body: Seq<u8>, fds: Seq<u32>) -> Result<ReadV, WireError> {
    if c == 'h' {
        if fds.len() == 0 {
            Err(WireError::MissingFd)
        } else {
            Ok(ReadV { arg: ArgV::Fd(fds[0]), rest: body, fds: fds.skip(1) })
        }
    } else if c == 's' || c == 'S' || c == 'a' {
        match read_block(body) {
            Err(e) => Err(e),
            Ok((data, rest)) => if c == 'a' {
                Ok(ReadV { arg: ArgV::Array(data), rest, fds })
            } else if c == 'S' && data.len() == 0 {
                Ok(ReadV { arg: ArgV::OptText(None), rest, fds })
            } else {
                match text_in(data) {
                    Err(e) => Err(e),
                    Ok(t) => Ok(
                        ReadV { arg: if c == 's' { ArgV::Text(t) } else { ArgV::OptText(Some(t)) }, rest, fds },
                    ),
                }
            },
        }
    } else if body.len() < 4 {
        Err(WireError::Truncated)
    } else {
        let w = read32_spec(body.take(4));
        let rest = body.skip(4);
        let arg = if c == 'i' {
            ArgV::Int(signed_of(w))
        } else if c == 'u' {
            ArgV::Uint(w)
        } else if c == 'f' {
            ArgV::Fixed(Fixed(signed_of(w)))
        } else if c == 'o' {
            ArgV::Object(ObjectId(w))
        } else {
            ArgV::NewId(ObjectId(w))
        };
        Ok(ReadV { arg, rest, fds })
    }
}

/// All arguments of a body; nothing may be left over.
pub open spec fn parse_spec(sig: Seq<char>, body: Seq<u8>, fds: Seq<u32>) -> Result<ParsedV, WireError>
    decreases sig.len(),
{
    if sig.len() == 0 {
        if body.len() == 0 {
            Ok(ParsedV { args: Seq::empty(), fds })
        } else {
            Err(WireError::TrailingData)
        }
    } else {
        match read_arg(sig[0], body, fds) {
            Err(e) => Err(e),
            Ok(r) => match parse_spec(sig.skip(1), r.rest, r.fds) {
                Err(e) => Err(e),
                Ok(p) => Ok(ParsedV { args: seq![r.arg] + p.args, fds: p.fds }),
            },
        }
    }
}

/// The queue of descriptors after a body was read, or was found to be malformed: the
/// ones up to there are gone from it.
pub open spec fn fds_after(sig: Seq<char>, body: Seq<u8>, fds: Seq<u32>) -> Seq<u32>
    decreases sig.len(),
{
    if sig.len() == 0 {
        fds
    } else {
        match read_arg(sig[0], body, fds) {
            Err(_) => fds,
            Ok(r) => fds_after(sig.skip(1), r.rest, r.fds),
        }
    }
}

/// `String::from_utf8`: succeeds exactly on valid UTF-8, with the text those bytes
/// encode.
#[verifier::external_body]
fn text_from(data: Vec<u8>) -> (r: Option<String>)
    ensures
        r is Some <==> valid_utf8(data@),
        r matches Some(s) ==> encode_utf8(s@) == data@,
{
    String::from_utf8(data).ok()
}

fn word_at(body: &Vec<u8>, pos: usize) -> (r: Result<u32, WireError>)
    requires
        pos <= body@.len(),
    ensures
        match r {
            Ok(w) => body@.len() - pos >= 4 && w == read32_spec(body@.skip(pos as int).take(4)),
            Err(e) => e is Truncated && body@.len() - pos < 4,
        },
{
    if body.len() - pos < 4 {
        return Err(WireError::Truncated);
    }
    let w: u32 = crate::bytes::get_le32(body, pos);
    assert(body@.skip(pos as int).take(4) =~= body@.subrange(pos as int, pos + 4));
    Ok(w)
}

/// The contents of a block at `pos`, and where it ends.
fn block_at(body: &Vec<u8>, pos: usize) -> (r: Result<(Vec<u8>, usize), WireError>)
    requires
        pos <= body@.len(),
    ensures
        match read_block(body@.skip(pos as int)) {
            Ok((data, rest)) => r matches Ok(p) && p.0@ == data && pos <= p.1 <= body@.len() && body@.skip(p.1 as int)
                == rest,
            Err(e) => r == Err::<(Vec<u8>, usize), WireError>(e),
        },
{
    let ghost b = body@.skip(pos as int);
    let w: u32 = match word_at(body, pos) {
        Ok(w) => w,
        Err(e) => {
            return Err(e);
        },
    };
    let left: usize = body.len() - pos;
    let pad: usize = (4 - (w % 4) as usize) % 4;
    let total: u64 = 4 + w as u64 + pad as u64;
    if (left as u64) < total {
        return Err(WireError::Truncated);
    }
    let n: usize = w as usize;
    let data: Vec<u8> = crate::bytes::copy_range(body, pos + 4, pos + 4 + n);
    let end: usize = pos + 4 + n + pad;
    proof {
        assert(fill(n as nat) == pad);
        assert(data@ =~= b.subrange(4, 4 + n as int));
        assert(body@.skip(end as int) =~= b.skip((4 + n + fill(n as nat)) as int));
    }
    Ok((data, end))
}

fn text_of(data: Vec<u8>) -> (r: Result<String, WireError>)
    ensures
        match text_in(data@) {
            Ok(t) => r matches Ok(s) && s@ == t,
            Err(e) => r == Err::<String, WireError>(e),
        },
{
    broadcast use vstd::utf8::group_utf8_lib;

    let n: usize = data.len();
    if n == 0 || data[n - 1] != 0 {
        return Err(WireError::BadString);
    }
    let mut body: Vec<u8> = data;
    body.pop();
    assert(body@ =~= data@.drop_last());
    match text_from(body) {
        Some(s) => {
            assert(vstd::utf8::decode_utf8(encode_utf8(s@)) == s@);
            Ok(s)
        },
        None => Err(WireError::BadString),
    }
}

/// One argument at `pos`; where the next one starts.
fn next_arg(c: char, body: &Vec<u8>, pos: usize, fds: &mut Vec<u32>) -> (r: Result<(Arg, usize), WireError>)
    requires
        pos <= body@.len(),
        is_letter(c),
    ensures
        match read_arg(c, body@.skip(pos as int), old(fds)@) {
            Ok(v) => r matches Ok(p) && p.0@ == v.arg && pos <= p.1 <= body@.len() && body@.skip(p.1 as int) == v.rest
                && final(fds)@ == v.fds,
            Err(e) => r == Err::<(Arg, usize), WireError>(e) && final(fds)@ == old(fds)@,
        },
{
    if c == 'h' {
        if fds.len() == 0 {
            return Err(WireError::MissingFd);
        }
        let f: u32 = fds.remove(0);
        assert(fds@ =~= old(fds)@.skip(1));
        return Ok((Arg::Fd(f), pos));
    }
    if c == 's' || c == 'S' || c == 'a' {
        let (data, end): (Vec<u8>, usize) = match block_at(body, pos) {
            Ok(p) => p,
            Err(e) => {
                return Err(e);
            },
        };
        if c == 'a' {
            return Ok((Arg::Array(data), end));
        }
        if c == 'S' && data.len() == 0 {
            return Ok((Arg::OptText(None), end));
        }
        return match text_of(data) {
            Ok(s) => if c == 's' {
                Ok((Arg::Text(s), end))
            } else {
                Ok((Arg::OptText(Some(s)), end))
            },
            Err(e) => Err(e),
        };
    }
    let w: u32 = match word_at(body, pos) {
        Ok(w) => w,
        Err(e) => {
            return Err(e);
        },
    };
    let len: usize = body.len();
    assert(pos + 4 <= len);
    assert(body@.skip(pos + 4) =~= body@.skip(pos as int).skip(4));
    let arg: Arg = if c == 'i' {
        Arg::Int(from_bits(w))
    } else if c == 'u' {
        Arg::Uint(w)
    } else if c == 'f' {
        Arg::Fixed(Fixed(from_bits(w)))
    } else if c == 'o' {
        Arg::Object(ObjectId(w))
    } else {
        Arg::NewId(ObjectId(w))
    };
    Ok((arg, pos + 4))
}

/// Reads a whole body by its signature. Descriptors come off the front of the queue.
pub fn parse(sig: &str, body: &Vec<u8>, fds: &mut Vec<u32>) -> (r: Result<Vec<Arg>, WireError>)
    requires
        signature(sig@),
    ensures
        match parse_spec(sig@, body@, old(fds)@) {
            Ok(p) => r matches Ok(args) && views(args@) == p.args && final(fds)@ == p.fds,
            Err(e) => r == Err::<Vec<Arg>, WireError>(e),
        },
        final(fds)@ == fds_after(sig@, body@, old(fds)@),
{
    let n: usize = sig.unicode_len();
    let mut out: Vec<Arg> = Vec::new();
    let mut pos: usize = 0;
    let ghost start = fds@;
    proof {
        assert(sig@.skip(0) =~= sig@);
        assert(body@.skip(0) =~= body@);
        assert(views(out@) =~= Seq::<ArgV>::empty());
        follows_empty(parse_spec(sig@, body@, start));
    }
    for i in 0..n
        invariant
            n == sig@.len(),
            signature(sig@),
            start == old(fds)@,
            pos <= body@.len(),
            parse_spec(sig@, body@, start) == follows(
                views(out@),
                parse_spec(sig@.skip(i as int), body@.skip(pos as int), fds@),
            ),
            fds_after(sig@, body@, start) == fds_after(sig@.skip(i as int), body@.skip(pos as int), fds@),
    {
        let c: char = sig.get_char(i);
        let ghost rest = body@.skip(pos as int);
        let ghost queue = fds@;
        let ghost had = views(out@);
        assert(sig@.skip(i as int)[0] == c);
        assert(sig@.skip(i as int).skip(1) =~= sig@.skip(i + 1));
        assert(is_letter(sig@[i as int]));
        let (arg, end): (Arg, usize) = match next_arg(c, body, pos, fds) {
            Ok(p) => p,
            Err(e) => {
                return Err(e);
            },
        };
        proof {
            let tail = parse_spec(sig@.skip(i + 1), body@.skip(end as int), fds@);
            follows_push(had, arg@, tail);
        }
        out.push(arg);
        pos = end;
        assert(views(out@) =~= had.push(arg@));
    }
    assert(sig@.skip(n as int).len() == 0);
    if pos != body.len() {
        assert(body@.skip(pos as int).len() > 0);
        return Err(WireError::TrailingData);
    }
    assert(body@.skip(pos as int).len() == 0);
    assert(views(out@) + Seq::<ArgV>::empty() =~= views(out@));
    Ok(out)
}

/// A parse with arguments put in front.
pub open spec fn follows(front: Seq<ArgV>, r: Result<ParsedV, WireError>) -> Result<ParsedV, WireError> {
    match r {
        Ok(p) => Ok(ParsedV { args: front + p.args, fds: p.fds }),
        Err(e) => Err(e),
    }
}

proof fn follows_empty(r: Result<ParsedV, WireError>)
    ensures
        follows(Seq::empty(), r) == r,
{
    if r is Ok {
        assert(Seq::<ArgV>::empty() + r->Ok_0.args =~= r->Ok_0.args);
    }
}

proof fn follows_push(front: Seq<ArgV>, a: ArgV, r: Result<ParsedV, WireError>)
    ensures
        follows(front.push(a), r) == follows(front, follows(seq![a], r)),
{
    if r is Ok {
        assert(front.push(a) + r->Ok_0.args =~= front + (seq![a] + r->Ok_0.args));
    }
}

/// The signature of a list of arguments.
pub open spec fn letters(args: Seq<ArgV>) -> Seq<char> {
    args.map_values(|a: ArgV| letter(a))
}

proof fn block_round_trip(data: Seq<u8>, more: Seq<u8>)
    requires
        data.len() <= u32::MAX,
    ensures
        read_block(block(data) + more) == Ok::<(Seq<u8>, Seq<u8>), WireError>((data, more)),
{
    let b = block(data) + more;
    let n = data.len();
    crate::bytes::read32_le32(n as u32, Seq::empty());
    assert(le32_spec(n as u32) + Seq::<u8>::empty() =~= le32_spec(n as u32));
    assert(b.take(4) =~= le32_spec(n as u32));
    assert(b.subrange(4, 4 + n as int) =~= data);
    assert(b.skip((4 + n + fill(n)) as int) =~= more);
}

proof fn arg_round_trip(a: ArgV, more: Seq<u8>, fds: Seq<u32>)
    requires
        short(a),
    ensures
        read_arg(letter(a), encode(a) + more, fds_of(seq![a]) + fds) == Ok::<ReadV, WireError>(
            ReadV { arg: a, rest: more, fds },
        ),
{
    broadcast use vstd::utf8::group_utf8_lib;

    reveal_with_fuel(fds_of, 2);
    assert(seq![a].skip(1) =~= Seq::<ArgV>::empty());
    let b = encode(a) + more;
    match a {
        ArgV::Fd(f) => {
            assert(b =~= more);
            assert(fds_of(seq![a]) + fds =~= seq![f] + fds);
            assert((seq![f] + fds).skip(1) =~= fds);
        },
        ArgV::Text(s) => {
            block_round_trip(terminated(s), more);
            assert(terminated(s).drop_last() =~= encode_utf8(s));
            assert(fds_of(seq![a]) + fds =~= fds);
        },
        ArgV::OptText(Some(s)) => {
            block_round_trip(terminated(s), more);
            assert(terminated(s).drop_last() =~= encode_utf8(s));
            assert(fds_of(seq![a]) + fds =~= fds);
        },
        ArgV::OptText(None) => {
            block_round_trip(Seq::<u8>::empty(), more);
            assert(block(Seq::<u8>::empty()) =~= le32_spec(0));
            assert(fds_of(seq![a]) + fds =~= fds);
        },
        ArgV::Array(v) => {
            block_round_trip(v, more);
            assert(fds_of(seq![a]) + fds =~= fds);
        },
        _ => {
            assert(fds_of(seq![a]) + fds =~= fds);
            let w = match a {
                ArgV::Int(v) => bits_of(v),
                ArgV::Uint(v) => v,
                ArgV::Fixed(v) => bits_of(v.0),
                ArgV::Object(v) => v.0,
                ArgV::NewId(v) => v.0,
                _ => 0,
            };
            crate::bytes::read32_le32(w, Seq::empty());
            assert(le32_spec(w) + Seq::<u8>::empty() =~= le32_spec(w));
            assert(b.take(4) =~= le32_spec(w));
            assert(b.skip(4) =~= more);
        },
    }
}

/// What is sent is what is read: parsing the bytes of a list of arguments by its
/// signature gives the list back and takes its descriptors, no more.
pub proof fn arguments_round_trip(args: Seq<ArgV>, fds: Seq<u32>)
    requires
        forall|i: int| 0 <= i < args.len() ==> short(#[trigger] args[i]),
    ensures
        parse_spec(letters(args), encode_all(args), fds_of(args) + fds) == Ok::<ParsedV, WireError>(
            ParsedV { args, fds },
        ),
    decreases args.len(),
{
    if args.len() == 0 {
        assert(fds_of(args) + fds =~= fds);
        assert(args =~= Seq::<ArgV>::empty());
    } else {
        let rest = args.skip(1);
        arguments_round_trip(rest, fds);
        assert(short(args[0]));
        arg_round_trip(args[0], encode_all(rest), fds_of(rest) + fds);
        assert(letters(args).skip(1) =~= letters(rest));
        assert(args =~= seq![args[0]] + rest);
        encode_concat(seq![args[0]], rest);
        assert(fds_of(args) + fds =~= fds_of(seq![args[0]]) + (fds_of(rest) + fds));
    }
}

} // verus!
