//! Getting a surface's pixels into a texture before it is drawn: dmabufs are imported
//! once and sampled in place, shared memory is uploaded again after each commit.
use crate::output::first_slot;
use crate::output::scene::{buffer_items, key_of, key_spec, usable, BufferInfo, Item, Pen, SurfaceInfo};
use crate::output::textures::{keyed, Demand, TexCache, TexEntry, TexKey};
use vstd::prelude::*;

verus! {

/// Where the pixels of an upload come from.
#[derive(Clone, Copy, Debug, PartialEq, Eq, Structural)]
pub enum Pixels {
    /// the copy that was taken at the commit
    Shadow,
    /// the rows of the client's buffer
    Rows,
}

/// What a surface needs next.
#[derive(Clone, Copy, Debug, PartialEq, Eq, Structural)]
pub enum Supply {
    /// nothing of it can be drawn
    Skip,
    /// it can be drawn; `wait` for the client's pending writes to a dmabuf
    Ready { wait: bool },
    /// import the dmabuf
    Import { width: u32, height: u32, opaque: bool },
    /// create a texture to upload to
    Create { width: u32, height: u32, opaque: bool },
    Upload { tex: u64, from: Pixels },
}

/// What can be read of a shared-memory surface: the length of the copy taken at the
/// commit, and whether the client's buffer is accessible.
#[derive(Clone, Copy, Debug, PartialEq, Eq, Structural)]
pub struct Readable {
    pub shadow: Option<usize>,
    pub rows: bool,
}

/// The shadow is the source of truth where it covers the buffer; else the buffer is read.
pub open spec fn pixels_spec(b: BufferInfo, can: Readable) -> Option<Pixels> {
    if can.shadow is Some && can.shadow->0 >= 4 * b.width * b.height {
        Some(Pixels::Shadow)
    } else if can.rows {
        Some(Pixels::Rows)
    } else {
        None
    }
}

fn pixels(b: &BufferInfo, can: Readable) -> (r: Option<Pixels>)
    ensures
        r == pixels_spec(*b, can),
{
    assert(0 <= b.width * b.height <= u32::MAX * u32::MAX) by (nonlinear_arith)
        requires
            0 <= b.width <= u32::MAX,
            0 <= b.height <= u32::MAX,
    ;
    let area: u128 = b.width as u128 * b.height as u128;
    let need: u128 = 4 * area;
    assert(need == 4 * b.width * b.height) by (nonlinear_arith)
        requires
            need == 4 * area,
            area == b.width * b.height,
    ;
    let shadowed: bool = match can.shadow {
        Some(n) => n as u128 >= need,
        None => false,
    };
    if shadowed {
        Some(Pixels::Shadow)
    } else if can.rows {
        Some(Pixels::Rows)
    } else {
        None
    }
}

/// The buffer a surface shows, if it has any pixels.
pub open spec fn shown(s: SurfaceInfo) -> Option<BufferInfo> {
    match s.buffer {
        Some(b) => if b.width > 0 && b.height > 0 { Some(b) } else { None },
        None => None,
    }
}

/// The entry a surface is drawn from, of whatever size and age.
pub open spec fn entry_of(entries: Seq<TexEntry>, s: SurfaceInfo, b: BufferInfo) -> Option<TexEntry> {
    match first_slot(entries, keyed(key_spec(s, b))) {
        None => None,
        Some(k) => Some(entries[k]),
    }
}

/// What a surface with that entry needs.
pub open spec fn supply_spec(entry: Option<TexEntry>, s: SurfaceInfo, b: BufferInfo, can: Readable) -> Supply {
    match entry {
        None => lacking(b),
        Some(e) => if e.width != b.width || e.height != b.height {
            lacking(b)
        } else {
            held_spec(e, s, b, can)
        },
    }
}

/// What a surface without a texture of its size needs.
pub open spec fn lacking(b: BufferInfo) -> Supply {
    if b.dmabuf {
        Supply::Import { width: b.width, height: b.height, opaque: !b.has_alpha }
    } else {
        Supply::Create { width: b.width, height: b.height, opaque: !b.has_alpha }
    }
}

/// What a surface with a texture of its size needs: pixels only move on a commit.
pub open spec fn held_spec(e: TexEntry, s: SurfaceInfo, b: BufferInfo, can: Readable) -> Supply {
    if b.dmabuf || e.generation == s.content_gen {
        Supply::Ready { wait: b.dmabuf }
    } else {
        match pixels_spec(b, can) {
            Some(from) => Supply::Upload { tex: e.tex, from },
            None => Supply::Skip,
        }
    }
}

fn upload_or_skip(tex: u64, b: &BufferInfo, can: Readable) -> (r: Supply)
    ensures
        r == (match pixels_spec(*b, can) {
            Some(from) => Supply::Upload { tex, from },
            None => Supply::Skip,
        }),
{
    match pixels(b, can) {
        Some(from) => Supply::Upload { tex, from },
        None => Supply::Skip,
    }
}

fn wanted_size(b: &BufferInfo) -> (r: Supply)
    ensures
        r == lacking(*b),
{
    if b.dmabuf {
        Supply::Import { width: b.width, height: b.height, opaque: !b.has_alpha }
    } else {
        Supply::Create { width: b.width, height: b.height, opaque: !b.has_alpha }
    }
}

/// The content generation a surface's texture is held to; dmabufs are sampled in place.
pub open spec fn generation_of(s: SurfaceInfo, b: BufferInfo) -> Option<u64> {
    if b.dmabuf { None } else { Some(s.content_gen) }
}

fn generation(s: &SurfaceInfo, b: &BufferInfo) -> (r: Option<u64>)
    ensures
        r == generation_of(*s, *b),
{
    if b.dmabuf { None } else { Some(s.content_gen) }
}

/// What a surface needs before it is drawn. A texture of another size retires.
pub fn supply(cache: &mut TexCache, s: &SurfaceInfo, can: Readable) -> (r: Supply)
    requires
        old(cache).wf(),
    ensures
        final(cache).wf(),
        final(cache).held() == old(cache).held(),
        match shown(*s) {
            None => r is Skip && *final(cache) == *old(cache),
            Some(b) => {
                &&& r == supply_spec(entry_of(old(cache).entries@, *s, b), *s, b, can)
                &&& match first_slot(old(cache).entries@, keyed(key_spec(*s, b))) {
                    None => *final(cache) == *old(cache),
                    Some(k) => {
                        let e = old(cache).entries@[k];
                        if e.width != b.width || e.height != b.height {
                            &&& final(cache).entries@ == old(cache).entries@.remove(k)
                            &&& final(cache).retired@ == old(cache).retired@.push(e.tex)
                        } else {
                            *final(cache) == *old(cache)
                        }
                    },
                }
            },
        },
{
    let b: BufferInfo = match s.buffer {
        None => {
            return Supply::Skip;
        },
        Some(b) => b,
    };
    if b.width == 0 || b.height == 0 {
        return Supply::Skip;
    }
    match cache.demand(key_of(s, &b), b.width, b.height, generation(s, &b)) {
        Demand::Allocate => wanted_size(&b),
        Demand::Ready { .. } => Supply::Ready { wait: b.dmabuf },
        Demand::Upload { tex } => upload_or_skip(tex, &b, can),
    }
}

/// The import or the texture that `supply` asked for came about, or not. An imported
/// buffer can be drawn; a fresh texture starts a generation behind and is uploaded to.
pub fn supplied(cache: &mut TexCache, s: &SurfaceInfo, can: Readable, tex: Option<u64>) -> (r: Supply)
    requires
        old(cache).wf(),
        shown(*s) matches Some(b) && first_slot(old(cache).entries@, keyed(key_spec(*s, b))) is None,
    ensures
        final(cache).wf(),
        final(cache).retired == old(cache).retired,
        ({
            let b = shown(*s)->0;
            match tex {
                None => r is Skip && final(cache).entries@ == old(cache).entries@,
                Some(t) => {
                    let e = TexEntry {
                        key: key_spec(*s, b),
                        tex: t,
                        width: b.width,
                        height: b.height,
                        generation: if b.dmabuf {
                            0
                        } else if s.content_gen == 0 {
                            u64::MAX
                        } else {
                            (s.content_gen - 1) as u64
                        },
                    };
                    &&& final(cache).entries@ == old(cache).entries@.push(e)
                    &&& r == held_spec(e, *s, b, can)
                },
            }
        }),
{
    let b: BufferInfo = match s.buffer {
        None => {
            return Supply::Skip;
        },
        Some(b) => b,
    };
    match tex {
        None => Supply::Skip,
        Some(t) => {
            cache.allocated(key_of(s, &b), t, b.width, b.height, generation(s, &b));
            if b.dmabuf {
                Supply::Ready { wait: true }
            } else {
                upload_or_skip(t, &b, can)
            }
        },
    }
}

/// The upload that was asked for succeeded or failed. A failed one leaves the texture
/// behind, so that the next frame tries again.
pub fn uploaded(cache: &mut TexCache, s: &SurfaceInfo, ok: bool) -> (r: Supply)
    requires
        old(cache).wf(),
        shown(*s) matches Some(b) && !b.dmabuf,
    ensures
        final(cache).wf(),
        final(cache).retired == old(cache).retired,
        !ok ==> r is Skip && *final(cache) == *old(cache),
        ok ==> {
            &&& r == Supply::Ready { wait: false }
            &&& match first_slot(old(cache).entries@, keyed(key_spec(*s, shown(*s)->0))) {
                None => final(cache).entries@ == old(cache).entries@,
                Some(k) => final(cache).entries@ == old(cache).entries@.update(
                    k,
                    TexEntry { generation: s.content_gen, ..old(cache).entries@[k] },
                ),
            }
        },
{
    if !ok {
        return Supply::Skip;
    }
    match s.buffer {
        None => {},
        Some(b) => {
            let key: TexKey = key_of(s, &b);
            cache.uploaded(key, s.content_gen);
        },
    }
    Supply::Ready { wait: false }
}

/// Byte `i` of a packed picture, out of rows that lie `stride` apart; what is not there
/// reads as zero.
pub open spec fn packed_byte(src: Seq<u8>, stride: int, row: int, i: int) -> u8 {
    let at = (i / row) * stride + i % row;
    if at < src.len() { src[at] } else { 0u8 }
}

/// Packs the rows of a client's buffer. Rows that came short are filled with zeroes, so
/// that nothing left over in the staging memory shows.
pub fn pack_rows(src: &Vec<u8>, stride: usize, row: usize, rows: usize) -> (r: Vec<u8>)
    requires
        row * rows <= usize::MAX,
    ensures
        r@.len() == row * rows,
        forall|i: int|
            0 <= i < r@.len() ==> #[trigger] r@[i] == packed_byte(src@, stride as int, row as int, i),
{
    let mut out: Vec<u8> = Vec::new();
    let len: usize = src.len();
    let mut at: usize = 0;
    let mut over: bool = false;
    proof {
        assert(row * 0 == 0 && 0 * stride == 0) by (nonlinear_arith);
    }
    for y in 0..rows
        invariant
            row * rows <= usize::MAX,
            len == src@.len(),
            out@.len() == row * y,
            over ==> y * stride >= src@.len(),
            !over ==> at == y * stride,
            forall|i: int|
                0 <= i < out@.len() ==> #[trigger] out@[i] == packed_byte(src@, stride as int, row as int, i),
    {
        proof {
            assert(row * (y + 1) == row * y + row && (y + 1) * stride == y * stride + stride) by (nonlinear_arith);
            assert(row * (y + 1) <= row * rows) by (nonlinear_arith)
                requires
                    y + 1 <= rows,
            ;
        }
        pack_row(src, if over { len } else { at }, row, &mut out, Ghost(y as int), Ghost(stride as int));
        if !over {
            match at.checked_add(stride) {
                Some(next) => {
                    at = next;
                },
                None => {
                    over = true;
                },
            }
        }
    }
    out
}

fn pack_row(src: &Vec<u8>, at: usize, row: usize, out: &mut Vec<u8>, y: Ghost<int>, stride: Ghost<int>)
    requires
        y@ >= 0 && stride@ >= 0,
        old(out)@.len() == row * y@,
        row * (y@ + 1) <= usize::MAX,
        at == y@ * stride@ || (at >= src@.len() && y@ * stride@ >= src@.len()),
        forall|i: int|
            0 <= i < old(out)@.len() ==> #[trigger] old(out)@[i] == packed_byte(src@, stride@, row as int, i),
    ensures
        final(out)@.len() == row * (y@ + 1),
        forall|i: int|
            0 <= i < final(out)@.len() ==> #[trigger] final(out)@[i] == packed_byte(src@, stride@, row as int, i),
{
    assert(row * (y@ + 1) == row * y@ + row) by (nonlinear_arith);
    for x in 0..row
        invariant
            y@ >= 0 && stride@ >= 0,
            out@.len() == row * y@ + x,
            at == y@ * stride@ || (at >= src@.len() && y@ * stride@ >= src@.len()),
            forall|i: int| 0 <= i < out@.len() ==> #[trigger] out@[i] == packed_byte(src@, stride@, row as int, i),
    {
        let v: u8 = if at < src.len() && x < src.len() - at { src[at + x] } else { 0 };
        proof {
            let i = row * y@ + x;
            assert(i / (row as int) == y@ && i % (row as int) == x) by (nonlinear_arith)
                requires
                    i == row * y@ + x,
                    0 <= x < row,
            ;
            assert(v == packed_byte(src@, stride@, row as int, i));
        }
        out.push(v);
    }
}

/// A surface can be drawn exactly when its texture holds its pixels: what is ready paints
/// and wants nothing.
pub proof fn ready_surfaces_are_drawn(p: Pen, entries: Seq<TexEntry>, s: SurfaceInfo, can: Readable, x: int, y: int)
    requires
        shown(s) is Some,
    ensures
        ({
            let b = shown(s)->0;
            &&& supply_spec(entry_of(entries, s, b), s, b, can) is Ready <==> usable(entries, s, b) is Some
            &&& supply_spec(entry_of(entries, s, b), s, b, can) is Ready ==> buffer_items(p, entries, s, x, y)[0]
                == Item::Live(key_spec(s, b))
        }),
{
    let b = shown(s)->0;
    crate::output::first_slot_is_lowest(entries, keyed(key_spec(s, b)));
}

/// Pixels are moved once per commit: after an import or an upload the surface is ready,
/// and stays so while its content and size do.
pub proof fn pixels_move_once(before: TexCache, s: SurfaceInfo, tex: u64, can: Readable)
    requires
        before.wf(),
        shown(s) is Some,
        first_slot(before.entries@, keyed(key_spec(s, shown(s)->0))) is None,
    ensures
        ({
            let b = shown(s)->0;
            let e = TexEntry {
                key: key_spec(s, b),
                tex,
                width: b.width,
                height: b.height,
                generation: if b.dmabuf { 0 } else { s.content_gen },
            };
            supply_spec(entry_of(before.entries@.push(e), s, b), s, b, can) == (Supply::Ready { wait: b.dmabuf })
        }),
{
    let b = shown(s)->0;
    let key = key_spec(s, b);
    let e = TexEntry {
        key,
        tex,
        width: b.width,
        height: b.height,
        generation: if b.dmabuf { 0 } else { s.content_gen },
    };
    crate::output::first_slot_is_lowest(before.entries@, keyed(key));
    let all = before.entries@.push(e);
    assert forall|j: int| 0 <= j < before.entries@.len() implies !keyed(key)(#[trigger] all[j]) by {
        assert(all[j] == before.entries@[j]);
    }
    crate::output::first_slot_found(all, keyed(key), before.entries@.len() as int);
}

} // verus!
