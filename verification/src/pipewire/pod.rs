//! The spa pod codec: a pod is a body size and a type, each four bytes, the
//! body, and zeros up to the next multiple of eight.
use crate::bytes::{
    bits_of, copy_range, from_bits, get_le32, get_le64, le32_spec, le64_spec, put_all, put_le32, put_le64, put_zeros,
    read32_le32, read32_spec, read64_spec, signed_of, to_bits, zeros,
};
use vstd::prelude::*;

verus! {

pub const T_BOOL: u32 = 2;

pub const T_ID: u32 = 3;

pub const T_INT: u32 = 4;

pub const T_LONG: u32 = 5;

pub const T_STRING: u32 = 8;

pub const T_RECTANGLE: u32 = 10;

pub const T_FRACTION: u32 = 11;

pub const T_STRUCT: u32 = 14;

pub const T_OBJECT: u32 = 15;

pub const T_FD: u32 = 18;

pub const T_CHOICE: u32 = 19;

pub const CHOICE_RANGE: u32 = 1;

pub const CHOICE_ENUM: u32 = 3;

pub const CHOICE_FLAGS: u32 = 4;

#[derive(Clone, Copy, Debug, PartialEq, Eq, Structural)]
pub enum PodError {
    /// the bytes end inside a pod
    Truncated,
    /// a pod of another type, or of another size than its type has
    WrongType,
}

/// Bytes of padding after a body.
pub open spec fn padding(len: nat) -> nat {
    ((8 - len % 8) % 8) as nat
}

/// One encoded pod.
#[verifier::opaque]
pub open spec fn pod_spec(ty: u32, body: Seq<u8>) -> Seq<u8> {
    le32_spec(body.len() as u32) + le32_spec(ty) + body + zeros(padding(body.len()))
}

/// How long an encoded pod is.
pub broadcast proof fn pod_len(ty: u32, body: Seq<u8>)
    ensures
        (#[trigger] pod_spec(ty, body)).len() == 8 + body.len() + padding(body.len()),
{
    reveal(pod_spec);
}

/// Splits the first pod off: its type, its body, and what follows. Padding at
/// the very end may be missing.
pub open spec fn split_pod(s: Seq<u8>) -> Option<(u32, Seq<u8>, Seq<u8>)> {
    if s.len() < 8 {
        None
    } else {
        let size = read32_spec(s) as nat;
        if s.len() < 8 + size {
            None
        } else {
            let next = 8 + size + padding(size);
            Some(
                (
                    read32_spec(s.skip(4)),
                    s.subrange(8, 8 + size as int),
                    if next <= s.len() { s.skip(next as int) } else { Seq::empty() },
                ),
            )
        }
    }
}

/// An encoded pod splits off whole.
pub proof fn split_undoes_pod(ty: u32, body: Seq<u8>, rest: Seq<u8>)
    requires
        body.len() <= u32::MAX,
    ensures
        split_pod(pod_spec(ty, body) + rest) == Some((ty, body, rest)),
{
    reveal(pod_spec);
    let size = body.len() as u32;
    let pad = zeros(padding(body.len()));
    let s = pod_spec(ty, body) + rest;
    assert(s =~= le32_spec(size) + (le32_spec(ty) + body + pad + rest));
    read32_le32(size, le32_spec(ty) + body + pad + rest);
    assert(s.skip(4) =~= le32_spec(ty) + (body + pad + rest));
    read32_le32(ty, body + pad + rest);
    assert(s.subrange(8, 8 + body.len() as int) =~= body);
    let next = 8 + body.len() + padding(body.len());
    assert(s.skip(next as int) =~= rest);
}

/// A pod encodes to a multiple of eight bytes, so pods can follow one another.
pub proof fn pods_stay_aligned(ty: u32, body: Seq<u8>)
    ensures
        pod_spec(ty, body).len() % 8 == 0,
{
    pod_len(ty, body);
}

/// Appends a pod.
pub fn put_pod(out: &mut Vec<u8>, ty: u32, body: &Vec<u8>)
    requires
        body@.len() <= u32::MAX,
    ensures
        final(out)@ == old(out)@ + pod_spec(ty, body@),
{
    let ghost had = out@;
    put_le32(out, body.len() as u32);
    put_le32(out, ty);
    put_all(out, body);
    let over: usize = body.len() % 8;
    put_zeros(out, (8 - over) % 8);
    reveal(pod_spec);
    assert(out@ =~= had + pod_spec(ty, body@));
}

pub open spec fn int_pod(v: i32) -> Seq<u8> {
    pod_spec(T_INT, le32_spec(bits_of(v)))
}

pub open spec fn uint_pod(v: u32) -> Seq<u8> {
    pod_spec(T_INT, le32_spec(v))
}

pub open spec fn id_pod(v: u32) -> Seq<u8> {
    pod_spec(T_ID, le32_spec(v))
}

pub open spec fn bool_pod(v: bool) -> Seq<u8> {
    pod_spec(T_BOOL, le32_spec(if v { 1 } else { 0 }))
}

pub open spec fn long_pod(v: u64) -> Seq<u8> {
    pod_spec(T_LONG, le64_spec(v))
}

pub open spec fn string_pod(s: Seq<u8>) -> Seq<u8> {
    pod_spec(T_STRING, s.push(0))
}

pub open spec fn pair_pod(ty: u32, a: u32, b: u32) -> Seq<u8> {
    pod_spec(ty, le32_spec(a) + le32_spec(b))
}

fn put_word(out: &mut Vec<u8>, ty: u32, v: u32)
    ensures
        final(out)@ == old(out)@ + pod_spec(ty, le32_spec(v)),
{
    let mut b: Vec<u8> = Vec::new();
    put_le32(&mut b, v);
    assert(b@ =~= le32_spec(v));
    put_pod(out, ty, &b);
}

pub fn put_int(out: &mut Vec<u8>, v: i32)
    ensures
        final(out)@ == old(out)@ + int_pod(v),
{
    put_word(out, T_INT, to_bits(v));
}

pub fn put_uint(out: &mut Vec<u8>, v: u32)
    ensures
        final(out)@ == old(out)@ + uint_pod(v),
{
    put_word(out, T_INT, v);
}

pub fn put_id(out: &mut Vec<u8>, v: u32)
    ensures
        final(out)@ == old(out)@ + id_pod(v),
{
    put_word(out, T_ID, v);
}

pub fn put_bool(out: &mut Vec<u8>, v: bool)
    ensures
        final(out)@ == old(out)@ + bool_pod(v),
{
    put_word(out, T_BOOL, if v { 1 } else { 0 });
}

pub fn put_long(out: &mut Vec<u8>, v: u64)
    ensures
        final(out)@ == old(out)@ + long_pod(v),
{
    let mut b: Vec<u8> = Vec::new();
    put_le64(&mut b, v);
    assert(b@ =~= le64_spec(v));
    put_pod(out, T_LONG, &b);
}

fn put_pair(out: &mut Vec<u8>, ty: u32, x: u32, y: u32)
    ensures
        final(out)@ == old(out)@ + pair_pod(ty, x, y),
{
    let mut b: Vec<u8> = Vec::new();
    put_le32(&mut b, x);
    put_le32(&mut b, y);
    assert(b@ =~= le32_spec(x) + le32_spec(y));
    put_pod(out, ty, &b);
}

pub fn put_rectangle(out: &mut Vec<u8>, w: u32, h: u32)
    ensures
        final(out)@ == old(out)@ + pair_pod(T_RECTANGLE, w, h),
{
    put_pair(out, T_RECTANGLE, w, h);
}

pub fn put_fraction(out: &mut Vec<u8>, num: u32, denom: u32)
    ensures
        final(out)@ == old(out)@ + pair_pod(T_FRACTION, num, denom),
{
    put_pair(out, T_FRACTION, num, denom);
}

/// The bytes of a text.
pub open spec fn utf8_of(s: Seq<char>) -> Seq<u8> {
    vstd::utf8::encode_utf8(s)
}

pub fn text_bytes(s: &str) -> (r: Vec<u8>)
    ensures
        r@ == utf8_of(s@),
{
    let b: &[u8] = s.as_bytes();
    let mut out: Vec<u8> = Vec::new();
    for i in 0..b.len()
        invariant
            b@ == utf8_of(s@),
            out@ == b@.take(i as int),
    {
        out.push(b[i]);
        assert(out@ =~= b@.take(i + 1));
    }
    assert(b@.take(b@.len() as int) =~= b@);
    out
}

/// A string pod: the bytes and a terminator.
pub fn put_string(out: &mut Vec<u8>, s: &str)
    requires
        utf8_of(s@).len() < u32::MAX,
    ensures
        final(out)@ == old(out)@ + string_pod(utf8_of(s@)),
{
    let mut b: Vec<u8> = text_bytes(s);
    b.push(0);
    put_pod(out, T_STRING, &b);
}

/// A choice: kind, flags, and the values of one child type, the default first.
pub open spec fn choice_pod(kind: u32, child: u32, values: Seq<u32>) -> Seq<u8> {
    pod_spec(
        T_CHOICE,
        le32_spec(kind) + le32_spec(0) + le32_spec(4) + le32_spec(child) + words(values),
    )
}

pub open spec fn words(values: Seq<u32>) -> Seq<u8>
    decreases values.len(),
{
    if values.len() == 0 {
        Seq::empty()
    } else {
        words(values.drop_last()) + le32_spec(values.last())
    }
}

proof fn words_len(values: Seq<u32>)
    ensures
        words(values).len() == 4 * values.len(),
    decreases values.len(),
{
    if values.len() > 0 {
        words_len(values.drop_last());
    }
}

/// A choice of a few values is short.
pub proof fn choice_pod_len(kind: u32, child: u32, values: Seq<u32>)
    ensures
        choice_pod(kind, child, values).len() <= 32 + 4 * values.len(),
{
    broadcast use pod_len;

    words_len(values);
}

pub fn put_choice(out: &mut Vec<u8>, kind: u32, child: u32, values: &Vec<u32>)
    requires
        16 + 4 * values@.len() <= u32::MAX,
    ensures
        final(out)@ == old(out)@ + choice_pod(kind, child, values@),
{
    let mut b: Vec<u8> = Vec::new();
    put_le32(&mut b, kind);
    put_le32(&mut b, 0);
    put_le32(&mut b, 4);
    put_le32(&mut b, child);
    let ghost head = le32_spec(kind) + le32_spec(0) + le32_spec(4) + le32_spec(child);
    assert(b@ =~= head);
    for i in 0..values.len()
        invariant
            b@ == head + words(values@.take(i as int)),
    {
        put_le32(&mut b, values[i]);
        proof {
            assert(values@.take(i + 1).drop_last() =~= values@.take(i as int));
            assert(b@ =~= head + words(values@.take(i + 1)));
        }
    }
    proof {
        assert(values@.take(values@.len() as int) =~= values@);
        words_len(values@);
    }
    put_pod(out, T_CHOICE, &b);
}

/// An object: its type and id, then its properties.
pub open spec fn object_pod(ty: u32, id: u32, props: Seq<u8>) -> Seq<u8> {
    pod_spec(T_OBJECT, le32_spec(ty) + le32_spec(id) + props)
}

pub fn put_object(out: &mut Vec<u8>, ty: u32, id: u32, props: &Vec<u8>)
    requires
        8 + props@.len() <= u32::MAX,
    ensures
        final(out)@ == old(out)@ + object_pod(ty, id, props@),
{
    let mut b: Vec<u8> = Vec::new();
    put_le32(&mut b, ty);
    put_le32(&mut b, id);
    put_all(&mut b, props);
    assert(b@ =~= le32_spec(ty) + le32_spec(id) + props@);
    put_pod(out, T_OBJECT, &b);
}

/// The head of a property; its value pod follows.
pub open spec fn prop_key(key: u32) -> Seq<u8> {
    le32_spec(key) + le32_spec(0)
}

pub fn put_prop(out: &mut Vec<u8>, key: u32)
    ensures
        final(out)@ == old(out)@ + prop_key(key),
{
    let ghost had = out@;
    put_le32(out, key);
    put_le32(out, 0);
    assert(out@ =~= had + prop_key(key));
}

/// What a typed read takes: the value and what follows.
pub open spec fn take_word(s: Seq<u8>, ty: u32) -> Result<(u32, Seq<u8>), PodError> {
    match split_pod(s) {
        None => Err(PodError::Truncated),
        Some((t, body, rest)) => if t == ty && body.len() == 4 {
            Ok((read32_spec(body), rest))
        } else {
            Err(PodError::WrongType)
        },
    }
}

pub open spec fn take_int(s: Seq<u8>) -> Result<(i32, Seq<u8>), PodError> {
    match take_word(s, T_INT) {
        Ok((v, rest)) => Ok((signed_of(v), rest)),
        Err(e) => Err(e),
    }
}

/// A pod whose first eight bytes are an index into the fds of the frame.
pub open spec fn take_fd(s: Seq<u8>) -> Result<(u64, Seq<u8>), PodError> {
    match split_pod(s) {
        None => Err(PodError::Truncated),
        Some((t, body, rest)) => if body.len() >= 8 {
            Ok((read64_spec(body), rest))
        } else {
            Err(PodError::WrongType)
        },
    }
}

pub open spec fn take_struct(s: Seq<u8>) -> Result<(Seq<u8>, Seq<u8>), PodError> {
    match split_pod(s) {
        None => Err(PodError::Truncated),
        Some((t, body, rest)) => if t == T_STRUCT {
            Ok((body, rest))
        } else {
            Err(PodError::WrongType)
        },
    }
}

/// A string without its terminator.
pub open spec fn take_string(s: Seq<u8>) -> Result<(Seq<u8>, Seq<u8>), PodError> {
    match split_pod(s) {
        None => Err(PodError::Truncated),
        Some((t, body, rest)) => if t == T_STRING && body.len() > 0 && body.last() == 0 {
            Ok((body.drop_last(), rest))
        } else {
            Err(PodError::WrongType)
        },
    }
}

/// A written integer reads back, and leaves what follows untouched.
pub proof fn int_round_trips(v: i32, rest: Seq<u8>)
    ensures
        take_int(int_pod(v) + rest) == Ok::<(i32, Seq<u8>), PodError>((v, rest)),
{
    split_undoes_pod(T_INT, le32_spec(bits_of(v)), rest);
    read32_le32(bits_of(v), Seq::empty());
    assert(le32_spec(bits_of(v)) + Seq::<u8>::empty() =~= le32_spec(bits_of(v)));
}

/// A written unsigned word or id reads back.
pub proof fn word_round_trips(ty: u32, v: u32, rest: Seq<u8>)
    ensures
        take_word(pod_spec(ty, le32_spec(v)) + rest, ty) == Ok::<(u32, Seq<u8>), PodError>((v, rest)),
{
    split_undoes_pod(ty, le32_spec(v), rest);
    read32_le32(v, Seq::empty());
    assert(le32_spec(v) + Seq::<u8>::empty() =~= le32_spec(v));
}

/// A written string reads back.
pub proof fn string_round_trips(text: Seq<u8>, rest: Seq<u8>)
    requires
        text.len() < u32::MAX,
    ensures
        take_string(string_pod(text) + rest) == Ok::<(Seq<u8>, Seq<u8>), PodError>((text, rest)),
{
    split_undoes_pod(T_STRING, text.push(0), rest);
    assert(text.push(0).drop_last() =~= text);
}

/// A written struct reads back.
pub proof fn struct_round_trips(body: Seq<u8>, rest: Seq<u8>)
    requires
        body.len() <= u32::MAX,
    ensures
        take_struct(pod_spec(T_STRUCT, body) + rest) == Ok::<(Seq<u8>, Seq<u8>), PodError>((body, rest)),
{
    split_undoes_pod(T_STRUCT, body, rest);
}

/// What is left once the next pod was read, whatever it holds; all of it where it is cut
/// short.
pub open spec fn past_pod(s: Seq<u8>) -> Seq<u8> {
    match split_pod(s) {
        None => s,
        Some((_, _, rest)) => rest,
    }
}

/// A cursor over the pods of a buffer.
pub struct PodParser<'a> {
    buf: &'a Vec<u8>,
    pos: usize,
    end: usize,
}

impl<'a> PodParser<'a> {
    pub closed spec fn wf(self) -> bool {
        self.pos <= self.end <= self.buf.len()
    }

    /// The bytes not read yet.
    pub closed spec fn rest(self) -> Seq<u8> {
        self.buf@.subrange(self.pos as int, self.end as int)
    }

    pub fn new(buf: &'a Vec<u8>) -> (p: PodParser<'a>)
        ensures
            p.wf(),
            p.rest() == buf@,
    {
        let p = PodParser { buf, pos: 0, end: buf.len() };
        assert(p.rest() =~= buf@);
        p
    }

    /// Whether everything was read.
    pub fn done(&self) -> (r: bool)
        requires
            self.wf(),
        ensures
            r == (self.rest().len() == 0),
    {
        self.pos >= self.end
    }

    /// The next pod's type and the span of its body in the buffer.
    fn value(&mut self) -> (r: Option<(u32, usize, usize)>)
        requires
            old(self).wf(),
        ensures
            final(self).wf(),
            final(self).buf == old(self).buf,
            final(self).end == old(self).end,
            match split_pod(old(self).rest()) {
                None => r is None && *final(self) == *old(self),
                Some((t, body, rest)) => {
                    &&& r is Some
                    &&& (r->0).0 == t
                    &&& (r->0).1 <= (r->0).2 <= old(self).buf.len()
                    &&& body == old(self).buf@.subrange((r->0).1 as int, (r->0).2 as int)
                    &&& final(self).rest() == rest
                },
            },
    {
        let ghost s = self.rest();
        let left: usize = self.end - self.pos;
        if left < 8 {
            return None;
        }
        let size: u32 = get_le32(self.buf, self.pos);
        let ty: u32 = get_le32(self.buf, self.pos + 4);
        proof {
            let a = self.buf@.skip(self.pos as int);
            assert(s[0] == a[0] && s[1] == a[1] && s[2] == a[2] && s[3] == a[3]);
            let b = self.buf@.skip(self.pos + 4);
            let t = s.skip(4);
            assert(t[0] == b[0] && t[1] == b[1] && t[2] == b[2] && t[3] == b[3]);
            assert(read32_spec(s) == size);
            assert(read32_spec(s.skip(4)) == ty);
        }
        if left - 8 < size as usize {
            return None;
        }
        let from: usize = self.pos + 8;
        let to: usize = from + size as usize;
        let pad: usize = (8 - size as usize % 8) % 8;
        assert(self.buf@.subrange(from as int, to as int) =~= s.subrange(8, 8 + size as int));
        let ghost at = self.pos;
        if self.end - to >= pad {
            self.pos = to + pad;
        } else {
            self.pos = self.end;
        }
        proof {
            let next = 8 + size as nat + padding(size as nat);
            assert(pad == padding(size as nat));
            if next <= s.len() {
                assert(self.rest() =~= s.skip(next as int));
            } else {
                assert(self.rest() =~= Seq::<u8>::empty());
            }
        }
        Some((ty, from, to))
    }

    fn word(&mut self, ty: u32) -> (r: Result<u32, PodError>)
        requires
            old(self).wf(),
        ensures
            final(self).wf(),
            final(self).rest() == past_pod(old(self).rest()),
            match take_word(old(self).rest(), ty) {
                Ok((v, _)) => r == Ok::<u32, PodError>(v),
                Err(e) => r == Err::<u32, PodError>(e),
            },
    {
        match self.value() {
            None => Err(PodError::Truncated),
            Some((t, from, to)) => {
                if t == ty && to - from == 4 {
                    proof {
                        let body = self.buf@.subrange(from as int, to as int);
                        let a = self.buf@.skip(from as int);
                        assert(body[0] == a[0] && body[1] == a[1] && body[2] == a[2] && body[3] == a[3]);
                    }
                    Ok(get_le32(self.buf, from))
                } else {
                    Err(PodError::WrongType)
                }
            },
        }
    }

    pub fn signed(&mut self) -> (r: Result<i32, PodError>)
        requires
            old(self).wf(),
        ensures
            final(self).wf(),
            final(self).rest() == past_pod(old(self).rest()),
            match take_int(old(self).rest()) {
                Ok((v, _)) => r == Ok::<i32, PodError>(v),
                Err(e) => r == Err::<i32, PodError>(e),
            },
    {
        match self.word(T_INT) {
            Ok(v) => Ok(from_bits(v)),
            Err(e) => Err(e),
        }
    }

    pub fn uint(&mut self) -> (r: Result<u32, PodError>)
        requires
            old(self).wf(),
        ensures
            final(self).wf(),
            final(self).rest() == past_pod(old(self).rest()),
            match take_word(old(self).rest(), T_INT) {
                Ok((v, _)) => r == Ok::<u32, PodError>(v),
                Err(e) => r == Err::<u32, PodError>(e),
            },
    {
        self.word(T_INT)
    }

    pub fn id(&mut self) -> (r: Result<u32, PodError>)
        requires
            old(self).wf(),
        ensures
            final(self).wf(),
            final(self).rest() == past_pod(old(self).rest()),
            match take_word(old(self).rest(), T_ID) {
                Ok((v, _)) => r == Ok::<u32, PodError>(v),
                Err(e) => r == Err::<u32, PodError>(e),
            },
    {
        self.word(T_ID)
    }

    /// An fd pod's index; the fd itself rides beside the frame.
    pub fn fd(&mut self) -> (r: Result<u64, PodError>)
        requires
            old(self).wf(),
        ensures
            final(self).wf(),
            final(self).rest() == past_pod(old(self).rest()),
            match take_fd(old(self).rest()) {
                Ok((v, _)) => r == Ok::<u64, PodError>(v),
                Err(e) => r == Err::<u64, PodError>(e),
            },
    {
        match self.value() {
            None => Err(PodError::Truncated),
            Some((t, from, to)) => {
                if to - from >= 8 {
                    proof {
                        let body = self.buf@.subrange(from as int, to as int);
                        let a = self.buf@.skip(from as int);
                        assert(body[0] == a[0] && body[1] == a[1] && body[2] == a[2] && body[3] == a[3]);
                        let b4 = body.skip(4);
                        let a4 = a.skip(4);
                        assert(b4[0] == a4[0] && b4[1] == a4[1] && b4[2] == a4[2] && b4[3] == a4[3]);
                        assert(read64_spec(body) == read64_spec(a));
                    }
                    Ok(get_le64(self.buf, from))
                } else {
                    Err(PodError::WrongType)
                }
            },
        }
    }

    /// Descends into the next pod, which has to be a struct.
    pub fn struct_(&mut self) -> (r: Result<PodParser<'a>, PodError>)
        requires
            old(self).wf(),
        ensures
            final(self).wf(),
            final(self).rest() == past_pod(old(self).rest()),
            match take_struct(old(self).rest()) {
                Ok((body, _)) => r matches Ok(p) && p.wf() && p.rest() == body,
                Err(e) => r == Err::<PodParser<'a>, PodError>(e),
            },
    {
        match self.value() {
            None => Err(PodError::Truncated),
            Some((t, from, to)) => {
                if t == T_STRUCT {
                    Ok(PodParser { buf: self.buf, pos: from, end: to })
                } else {
                    Err(PodError::WrongType)
                }
            },
        }
    }

    /// The bytes of the next pod, which has to be a string.
    pub fn string(&mut self) -> (r: Result<Vec<u8>, PodError>)
        requires
            old(self).wf(),
        ensures
            final(self).wf(),
            final(self).rest() == past_pod(old(self).rest()),
            match take_string(old(self).rest()) {
                Ok((text, _)) => r matches Ok(v) && v@ == text,
                Err(e) => r == Err::<Vec<u8>, PodError>(e),
            },
    {
        match self.value() {
            None => Err(PodError::Truncated),
            Some((t, from, to)) => {
                let ghost body = self.buf@.subrange(from as int, to as int);
                if t == T_STRING && to > from && self.buf[to - 1] == 0 {
                    let v: Vec<u8> = copy_range(self.buf, from, to - 1);
                    assert(body.last() == 0);
                    assert(v@ =~= body.drop_last());
                    Ok(v)
                } else {
                    proof {
                        if to > from {
                            assert(body.last() == self.buf@[to - 1]);
                        }
                    }
                    Err(PodError::WrongType)
                }
            },
        }
    }
}

} // verus!
