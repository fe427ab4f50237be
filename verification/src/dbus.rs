//! Building D-Bus message bodies: little endian, every value on its alignment.
use crate::bytes::{bits_of, le32_spec, put_le32, put_zeros, to_bits, zeros};
use vstd::prelude::*;

verus! {

/// `s` filled up with zeros to a multiple of `n`.
#[verifier::opaque]
pub open spec fn aligned(s: Seq<u8>, n: nat) -> Seq<u8> {
    s + zeros(((n - s.len() % n) % (n as int)) as nat)
}

#[verifier::opaque]
pub open spec fn with_u32(s: Seq<u8>, v: u32) -> Seq<u8> {
    aligned(s, 4) + le32_spec(v)
}

pub open spec fn with_i32(s: Seq<u8>, v: i32) -> Seq<u8> {
    with_u32(s, bits_of(v))
}

/// A string: length, bytes, terminator.
#[verifier::opaque]
pub open spec fn with_str(s: Seq<u8>, t: Seq<char>) -> Seq<u8> {
    with_u32(s, vstd::utf8::encode_utf8(t).len() as u32) + vstd::utf8::encode_utf8(t) + seq![0u8]
}

/// A variant's signature; its value follows.
#[verifier::opaque]
pub open spec fn with_sig(s: Seq<u8>, t: Seq<char>) -> Seq<u8> {
    s + seq![vstd::utf8::encode_utf8(t).len() as u8] + vstd::utf8::encode_utf8(t) + seq![0u8]
}

/// Where an array's length stands.
pub open spec fn array_at(s: Seq<u8>) -> nat {
    aligned(s, 4).len()
}

/// An array's head: a length to be filled in, and padding up to the elements.
#[verifier::opaque]
pub open spec fn opened(s: Seq<u8>, elem: nat) -> Seq<u8> {
    aligned(with_u32(s, 0), elem)
}

/// The finished array: `s` with the length at `at` set to what follows `start`.
#[verifier::opaque]
pub open spec fn closed_array(s: Seq<u8>, at: nat, start: nat) -> Seq<u8> {
    s.take(at as int) + le32_spec((s.len() - start) as u32) + s.skip(at as int + 4)
}

/// An array without elements.
pub open spec fn with_empty_array(s: Seq<u8>, elem: nat) -> Seq<u8> {
    closed_array(opened(s, elem), array_at(s), opened(s, elem).len())
}

/// A body under construction.
pub struct MsgBuilder {
    pub buf: Vec<u8>,
}

/// An array whose length is not known yet.
pub struct ArrayMark {
    pub at: usize,
    pub start: usize,
}

impl MsgBuilder {
    pub fn new() -> (b: MsgBuilder)
        ensures
            b.buf@ == Seq::<u8>::empty(),
    {
        MsgBuilder { buf: Vec::new() }
    }

    pub fn align(&mut self, n: usize)
        requires
            n > 0,
        ensures
            final(self).buf@ == aligned(old(self).buf@, n as nat),
            old(self).buf@.len() <= final(self).buf@.len() < old(self).buf@.len() + n,
    {
        proof {
            reveal(aligned);
        }
        let over: usize = self.buf.len() % n;
        put_zeros(&mut self.buf, (n - over) % n);
    }

    pub fn put_u32(&mut self, v: u32)
        ensures
            final(self).buf@ == with_u32(old(self).buf@, v),
            old(self).buf@.len() + 4 <= final(self).buf@.len() <= old(self).buf@.len() + 7,
    {
        proof {
            reveal(with_u32);
        }
        self.align(4);
        put_le32(&mut self.buf, v);
    }

    pub fn put_i32(&mut self, v: i32)
        ensures
            final(self).buf@ == with_i32(old(self).buf@, v),
            old(self).buf@.len() + 4 <= final(self).buf@.len() <= old(self).buf@.len() + 7,
    {
        self.put_u32(to_bits(v));
    }

    fn put_text(&mut self, t: &str)
        ensures
            final(self).buf@ == old(self).buf@ + vstd::utf8::encode_utf8(t@) + seq![0u8],
    {
        let b: &[u8] = t.as_bytes();
        let ghost had = self.buf@;
        for i in 0..b.len()
            invariant
                b@ == vstd::utf8::encode_utf8(t@),
                self.buf@ == had + b@.take(i as int),
        {
            self.buf.push(b[i]);
            assert(self.buf@ =~= had + b@.take(i + 1));
        }
        assert(b@.take(b@.len() as int) =~= b@);
        self.buf.push(0);
        assert(self.buf@ =~= had + b@ + seq![0u8]);
    }

    pub fn put_str(&mut self, t: &str)
        requires
            vstd::utf8::encode_utf8(t@).len() <= u32::MAX,
        ensures
            final(self).buf@ == with_str(old(self).buf@, t@),
            old(self).buf@.len() <= final(self).buf@.len() <= old(self).buf@.len() + 8
                + vstd::utf8::encode_utf8(t@).len(),
    {
        proof {
            reveal(with_str);
        }
        let n: usize = t.as_bytes().len();
        self.put_u32(n as u32);
        self.put_text(t);
    }

    /// The signature of a variant; the value is put after it.
    pub fn put_signature(&mut self, t: &str)
        requires
            vstd::utf8::encode_utf8(t@).len() <= 255,
        ensures
            final(self).buf@ == with_sig(old(self).buf@, t@),
            old(self).buf@.len() <= final(self).buf@.len() <= old(self).buf@.len() + 2
                + vstd::utf8::encode_utf8(t@).len(),
    {
        proof {
            reveal(with_sig);
        }
        let ghost had = self.buf@;
        let n: usize = t.as_bytes().len();
        self.buf.push(n as u8);
        assert(self.buf@ =~= had + seq![vstd::utf8::encode_utf8(t@).len() as u8]);
        self.put_text(t);
    }

    /// Starts an array whose elements are aligned to `elem`.
    pub fn open_array(&mut self, elem: usize) -> (m: ArrayMark)
        requires
            elem > 0,
        ensures
            final(self).buf@ == opened(old(self).buf@, elem as nat),
            m.at == array_at(old(self).buf@),
            m.start == opened(old(self).buf@, elem as nat).len(),
            m.at + 4 <= m.start,
            m.start == final(self).buf@.len(),
            old(self).buf@.len() <= m.at,
            m.start < old(self).buf@.len() + 7 + elem,
    {
        let ghost before = self.buf@;
        self.align(4);
        let at: usize = self.buf.len();
        let ghost first = self.buf@;
        proof {
            reveal(opened);
            reveal(with_u32);
            reveal(aligned);
            assert(aligned(first, 4) =~= first);
        }
        self.put_u32(0);
        self.align(elem);
        ArrayMark { at, start: self.buf.len() }
    }

    /// Finishes an array: its length is what was put since it was opened.
    pub fn close_array(&mut self, m: ArrayMark)
        requires
            m.at + 4 <= m.start,
            m.start <= old(self).buf@.len(),
            old(self).buf@.len() - m.start <= u32::MAX,
        ensures
            final(self).buf@ == closed_array(old(self).buf@, m.at as nat, m.start as nat),
            final(self).buf@.len() == old(self).buf@.len(),
    {
        proof {
            reveal(closed_array);
        }
        let n: u32 = (self.buf.len() - m.start) as u32;
        let ghost had = self.buf@;
        self.buf.set(m.at, (n % 256) as u8);
        self.buf.set(m.at + 1, (n / 256 % 256) as u8);
        self.buf.set(m.at + 2, (n / 65536 % 256) as u8);
        self.buf.set(m.at + 3, (n / 16777216) as u8);
        assert(self.buf@ =~= closed_array(had, m.at as nat, m.start as nat));
    }
}

} // verus!
