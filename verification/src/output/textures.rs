//! The per-output texture cache: what is sampled in place, what is uploaded
//! again, and what may be destroyed once the frame in flight is done with it.
use crate::output::{first_slot, first_slot_absent, first_slot_found, first_slot_is_lowest};
use vstd::multiset::Multiset;
use vstd::prelude::*;

verus! {

/// Whose pixels a texture holds: a surface's for shared memory, a buffer's for
/// dmabufs. Uids are never reused.
#[derive(Clone, Copy, Debug, PartialEq, Eq, Structural)]
pub struct TexKey {
    pub client: u64,
    pub uid: u64,
}

#[derive(Clone, Copy, Debug)]
pub struct TexEntry {
    pub key: TexKey,
    pub tex: u64,
    pub width: u32,
    pub height: u32,
    /// content generation of the last upload
    pub generation: u64,
}

pub struct TexCache {
    pub entries: Vec<TexEntry>,
    /// out of the cache, but the frame in flight may still sample them
    pub retired: Vec<u64>,
}

/// What a buffer needs before it can be drawn.
#[derive(Clone, Copy, Debug, PartialEq, Eq, Structural)]
pub enum Demand {
    /// the texture holds these pixels already
    Ready { tex: u64 },
    /// the pixels moved since the last upload
    Upload { tex: u64 },
    /// no texture of this size yet
    Allocate,
}

pub open spec fn keyed(key: TexKey) -> spec_fn(TexEntry) -> bool {
    |e: TexEntry| e.key == key
}

pub open spec fn tex_of() -> spec_fn(TexEntry) -> u64 {
    |e: TexEntry| e.tex
}

/// No key twice.
pub open spec fn distinct_keys(entries: Seq<TexEntry>) -> bool {
    forall|i: int, j: int|
        0 <= i < j < entries.len() ==> (#[trigger] entries[i]).key != (#[trigger] entries[j]).key
}

/// One of the first `n` entries.
spec fn comes_from(all: Seq<TexEntry>, n: int, e: TexEntry) -> bool {
    exists|b: int| 0 <= b < n && e == #[trigger] all[b]
}

/// The textures of a list of entries.
pub open spec fn textures(entries: Seq<TexEntry>) -> Multiset<u64> {
    entries.map_values(tex_of()).to_multiset()
}

proof fn empty_counts(s: Seq<u64>)
    requires
        s.len() == 0,
    ensures
        s.to_multiset() == Multiset::<u64>::empty(),
{
    assert forall|a: u64| s.to_multiset().count(a) == 0 by {
        vstd::seq_lib::to_multiset_contains(s, a);
    }
    assert(s.to_multiset() =~= Multiset::<u64>::empty());
}

proof fn insert_commutes(a: Multiset<u64>, b: Multiset<u64>, x: u64)
    ensures
        a.insert(x).add(b) == a.add(b).insert(x),
        a.add(b.insert(x)) == a.add(b).insert(x),
{
    assert(a.insert(x).add(b) =~= a.add(b).insert(x));
    assert(a.add(b.insert(x)) =~= a.add(b).insert(x));
}

proof fn push_counts(s: Seq<u64>, x: u64)
    ensures
        s.push(x).to_multiset() == s.to_multiset().insert(x),
{
    broadcast use vstd::seq_lib::group_to_multiset_ensures;

}

proof fn textures_push(s: Seq<TexEntry>, e: TexEntry)
    ensures
        textures(s.push(e)) == textures(s).insert(e.tex),
{
    assert(s.push(e).map_values(tex_of()) =~= s.map_values(tex_of()).push(e.tex));
    push_counts(s.map_values(tex_of()), e.tex);
}

proof fn textures_remove(s: Seq<TexEntry>, k: int)
    requires
        0 <= k < s.len(),
    ensures
        textures(s) == textures(s.remove(k)).insert(s[k].tex),
{
    broadcast use vstd::seq_lib::group_to_multiset_ensures;

    assert(s.remove(k).map_values(tex_of()) =~= s.map_values(tex_of()).remove(k));
    let m = s.map_values(tex_of());
    assert(m.remove(k).to_multiset() =~= m.to_multiset().remove(m[k]));
    assert(m.to_multiset().contains(m[k])) by {
        m.to_multiset_ensures();
    }
    assert(textures(s) =~= textures(s.remove(k)).insert(s[k].tex));
}

/// Keys still wanted after a frame.
pub open spec fn wanted(live: Seq<TexKey>) -> spec_fn(TexEntry) -> bool {
    |e: TexEntry| live.contains(e.key)
}

pub open spec fn unwanted(live: Seq<TexKey>) -> spec_fn(TexEntry) -> bool {
    |e: TexEntry| !live.contains(e.key)
}

/// The entries left and the textures taken when `keys` are seized in order.
pub open spec fn seize_spec(entries: Seq<TexEntry>, keys: Seq<TexKey>, n: nat) -> (Seq<TexEntry>, Seq<u64>)
    decreases n,
{
    if n == 0 {
        (entries, Seq::empty())
    } else {
        let (e, t) = seize_spec(entries, keys, (n - 1) as nat);
        match first_slot(e, keyed(keys[n - 1])) {
            Some(k) => (e.remove(k), t.push(e[k].tex)),
            None => (e, t),
        }
    }
}

impl TexCache {
    pub open spec fn wf(self) -> bool {
        distinct_keys(self.entries@)
    }

    /// Every texture the cache answers for.
    pub open spec fn held(self) -> Multiset<u64> {
        textures(self.entries@).add(self.retired@.to_multiset())
    }

    pub fn new() -> (r: TexCache)
        ensures
            r.wf(),
            r.entries@.len() == 0,
            r.retired@.len() == 0,
    {
        TexCache { entries: Vec::new(), retired: Vec::new() }
    }

    /// The slot of a key.
    pub fn find(&self, key: TexKey) -> (r: Option<usize>)
        ensures
            match r {
                Some(k) => first_slot(self.entries@, keyed(key)) == Some(k as int) && k < self.entries@.len()
                    && self.entries@[k as int].key == key,
                None => first_slot(self.entries@, keyed(key)) is None,
            },
    {
        for i in 0..self.entries.len()
            invariant
                forall|j: int| 0 <= j < i ==> !keyed(key)(#[trigger] self.entries@[j]),
        {
            if self.entries[i].key == key {
                proof {
                    first_slot_found(self.entries@, keyed(key), i as int);
                }
                return Some(i);
            }
        }
        proof {
            first_slot_absent(self.entries@, keyed(key));
        }
        None
    }

    /// What a buffer of this size needs. `content` is the surface's content
    /// generation for shared memory; a dmabuf is sampled in place. A texture of
    /// another size is retired on the spot.
    pub fn demand(&mut self, key: TexKey, width: u32, height: u32, content: Option<u64>) -> (r: Demand)
        requires
            old(self).wf(),
        ensures
            final(self).wf(),
            final(self).held() == old(self).held(),
            match first_slot(old(self).entries@, keyed(key)) {
                None => r is Allocate && *final(self) == *old(self),
                Some(k) => {
                    let e = old(self).entries@[k];
                    if e.width != width || e.height != height {
                        &&& r is Allocate
                        &&& final(self).entries@ == old(self).entries@.remove(k)
                        &&& final(self).retired@ == old(self).retired@.push(e.tex)
                    } else {
                        &&& *final(self) == *old(self)
                        &&& r == (if content is Some && e.generation != content->0 {
                            Demand::Upload { tex: e.tex }
                        } else {
                            Demand::Ready { tex: e.tex }
                        })
                    }
                },
            },
    {
        match self.find(key) {
            None => Demand::Allocate,
            Some(k) => {
                let e: TexEntry = self.entries[k];
                if e.width != width || e.height != height {
                    proof {
                        textures_remove(self.entries@, k as int);
                        push_counts(self.retired@, e.tex);
                    }
                    self.entries.remove(k);
                    self.retired.push(e.tex);
                    assert(self.held() =~= old(self).held());
                    return Demand::Allocate;
                }
                match content {
                    Some(g) => if e.generation != g {
                        Demand::Upload { tex: e.tex }
                    } else {
                        Demand::Ready { tex: e.tex }
                    },
                    None => Demand::Ready { tex: e.tex },
                }
            },
        }
    }

    /// A texture was allocated for this key. Shared memory starts a generation
    /// behind, so that its first pass uploads.
    pub fn allocated(&mut self, key: TexKey, tex: u64, width: u32, height: u32, content: Option<u64>)
        requires
            old(self).wf(),
            first_slot(old(self).entries@, keyed(key)) is None,
        ensures
            final(self).wf(),
            final(self).retired == old(self).retired,
            final(self).entries@ == old(self).entries@.push(
                TexEntry {
                    key,
                    tex,
                    width,
                    height,
                    generation: match content {
                        Some(g) => if g == 0 { u64::MAX } else { (g - 1) as u64 },
                        None => 0,
                    },
                },
            ),
    {
        let generation: u64 = match content {
            Some(g) => if g == 0 { u64::MAX } else { g - 1 },
            None => 0,
        };
        proof {
            first_slot_is_lowest(self.entries@, keyed(key));
            assert forall|i: int| 0 <= i < self.entries@.len() implies (#[trigger] self.entries@[i]).key != key by {
                assert(!keyed(key)(self.entries@[i]));
            }
        }
        self.entries.push(TexEntry { key, tex, width, height, generation });
    }

    /// The pixels of this generation are in the texture now.
    pub fn uploaded(&mut self, key: TexKey, generation: u64)
        requires
            old(self).wf(),
        ensures
            final(self).wf(),
            final(self).retired == old(self).retired,
            match first_slot(old(self).entries@, keyed(key)) {
                None => final(self).entries@ == old(self).entries@,
                Some(k) => final(self).entries@ == old(self).entries@.update(
                    k,
                    TexEntry { generation, ..old(self).entries@[k] },
                ),
            },
    {
        match self.find(key) {
            None => {},
            Some(k) => {
                self.entries[k].generation = generation;
            },
        }
    }

    /// Textures for buffers that are gone do not outlive the frame: they leave
    /// the cache, and wait for the frame in flight.
    pub fn sweep(&mut self, live: &Vec<TexKey>)
        requires
            old(self).wf(),
        ensures
            final(self).wf(),
            final(self).entries@ == old(self).entries@.filter(wanted(live@)),
            final(self).retired@ == old(self).retired@ + old(self).entries@.filter(unwanted(live@)).map_values(
                tex_of(),
            ),
            final(self).held() == old(self).held(),
    {
        let ghost all = self.entries@;
        let ghost r0 = self.retired@;
        let mut kept: Vec<TexEntry> = Vec::new();
        proof {
            reveal(Seq::filter);
            assert(all.take(0) =~= Seq::<TexEntry>::empty());
            assert(r0 + Seq::<u64>::empty() =~= r0);
            assert(all.take(0).filter(unwanted(live@)).map_values(tex_of()) =~= Seq::<u64>::empty());
            empty_counts(kept@.map_values(tex_of()));
            empty_counts(all.take(0).map_values(tex_of()));
            assert(textures(kept@).add(r0.to_multiset()) =~= textures(all.take(0)).add(r0.to_multiset()));
        }
        let n: usize = self.entries.len();
        for i in 0..n
            invariant
                n == all.len(),
                self.entries@ == all,
                distinct_keys(all),
                kept@ == all.take(i as int).filter(wanted(live@)),
                self.retired@ == r0 + all.take(i as int).filter(unwanted(live@)).map_values(tex_of()),
                distinct_keys(kept@),
                forall|a: int| 0 <= a < kept@.len() ==> comes_from(all, i as int, #[trigger] kept@[a]),
                textures(kept@).add(self.retired@.to_multiset()) == textures(all.take(i as int)).add(
                    r0.to_multiset(),
                ),
        {
            let e: TexEntry = self.entries[i];
            let ghost k0 = kept@;
            let ghost ret0 = self.retired@;
            proof {
                reveal(Seq::filter);
                assert(all.take(i + 1).drop_last() =~= all.take(i as int));
                assert(all.take(i + 1) =~= all.take(i as int).push(e));
                textures_push(all.take(i as int), e);
                insert_commutes(textures(all.take(i as int)), r0.to_multiset(), e.tex);
            }
            if is_live(live, e.key) {
                kept.push(e);
                proof {
                    textures_push(k0, e);
                    insert_commutes(textures(k0), ret0.to_multiset(), e.tex);
                    assert forall|a: int| 0 <= a < kept@.len() implies comes_from(
                        all,
                        i + 1,
                        #[trigger] kept@[a],
                    ) by {
                        if a < k0.len() {
                            assert(comes_from(all, i as int, k0[a]));
                        } else {
                            assert(kept@[a] == all[i as int]);
                        }
                    }
                }
            } else {
                self.retired.push(e.tex);
                proof {
                    assert forall|a: int| 0 <= a < kept@.len() implies comes_from(
                        all,
                        i + 1,
                        #[trigger] kept@[a],
                    ) by {
                        assert(comes_from(all, i as int, k0[a]));
                    }
                    let left = all.take(i as int).filter(unwanted(live@));
                    assert(left.push(e).map_values(tex_of()) =~= left.map_values(tex_of()).push(e.tex));
                    assert((r0 + left.map_values(tex_of())).push(e.tex) =~= r0 + left.map_values(tex_of()).push(
                        e.tex,
                    ));
                    push_counts(ret0, e.tex);
                    insert_commutes(textures(k0), ret0.to_multiset(), e.tex);
                }
            }
        }
        assert(all.take(all.len() as int) =~= all);
        self.entries = kept;
    }

    /// Hands the textures of a final batch over to a closing window.
    pub fn seize(&mut self, keys: &Vec<TexKey>) -> (keep: Vec<u64>)
        requires
            old(self).wf(),
        ensures
            final(self).wf(),
            final(self).retired == old(self).retired,
            (final(self).entries@, keep@) == seize_spec(old(self).entries@, keys@, keys@.len()),
            final(self).held().add(keep@.to_multiset()) == old(self).held(),
    {
        let mut keep: Vec<u64> = Vec::new();
        proof {
            empty_counts(keep@);
            assert(self.held().add(keep@.to_multiset()) =~= old(self).held());
        }
        for i in 0..keys.len()
            invariant
                self.wf(),
                self.retired == old(self).retired,
                (self.entries@, keep@) == seize_spec(old(self).entries@, keys@, i as nat),
                self.held().add(keep@.to_multiset()) == old(self).held(),
        {
            let ghost before = *self;
            let ghost kept = keep@;
            match self.find(keys[i]) {
                None => {},
                Some(k) => {
                    let e: TexEntry = self.entries.remove(k);
                    keep.push(e.tex);
                    proof {
                        textures_remove(before.entries@, k as int);
                        push_counts(kept, e.tex);
                        assert(self.held().add(keep@.to_multiset()) =~= before.held().add(kept.to_multiset()));
                    }
                },
            }
        }
        keep
    }

    /// The frame in flight is done: everything retired may be destroyed.
    pub fn take_retired(&mut self) -> (r: Vec<u64>)
        ensures
            final(self).entries == old(self).entries,
            final(self).retired@.len() == 0,
            r@ == old(self).retired@,
    {
        let mut out: Vec<u64> = Vec::new();
        out.append(&mut self.retired);
        out
    }
}

fn is_live(live: &Vec<TexKey>, key: TexKey) -> (r: bool)
    ensures
        r == live@.contains(key),
{
    for i in 0..live.len()
        invariant
            forall|j: int| 0 <= j < i ==> live@[j] != key,
    {
        if live[i] == key {
            assert(live@[i as int] == key);
            return true;
        }
    }
    false
}

/// A swept cache answers only for keys that were drawn.
pub proof fn sweep_leaves_only_live(entries: Seq<TexEntry>, live: Seq<TexKey>, i: int)
    requires
        0 <= i < entries.filter(wanted(live)).len(),
    ensures
        live.contains(entries.filter(wanted(live))[i].key),
{
    entries.lemma_filter_pred(wanted(live), i);
}

} // verus!
