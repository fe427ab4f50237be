//! Windows that are gone but still animate out: their final batch outlives the
//! surface.
use crate::list::{any, filter_members, find, retain};
use crate::output::compose::{
    animating_items, live_keys, live_of, screen_pen, shadow_items, window_border_items, window_items, window_pen,
    window_popup_items, Stage, WindowNode,
};
use crate::output::present::Style;
use crate::output::scene::{
    buffer_items, feedback_items, not_bookkeeping, paints, popup_items, popups_items, subs_items, tree_items, Item, Owner, Pen, PopupNode,
    SubNode, SurfaceNode,
};
use crate::output::textures::{seize_spec, TexCache, TexEntry, TexKey};
use crate::output::{first_slot, first_slot_found};
use crate::rect::Rect;
use vstd::prelude::*;

verus! {

pub struct ClosingWindow {
    /// the final batch
    pub ops: Vec<Item>,
    /// textures taken over from the cache; retired when the animation ends
    pub keep: Vec<u64>,
    pub rect: Rect,
    pub style: Style,
    /// the animation has finished
    pub done: bool,
}

/// Most stashed windows at a time.
pub const CLOSING_CAP: usize = 8;

/// Something was painted.
pub open spec fn painted(ops: Seq<Item>) -> bool {
    exists|i: int| 0 <= i < ops.len() && paints(#[trigger] ops[i])
}

/// Wraps a cached final batch, taking ownership of its textures. A batch that paints
/// nothing leaves nothing to animate.
pub fn seize_batch(
    cache: &mut TexCache,
    ops: Vec<Item>,
    keys: &Vec<TexKey>,
    rect: Rect,
    style: Style,
) -> (r: Option<ClosingWindow>)
    requires
        old(cache).wf(),
    ensures
        final(cache).wf(),
        r is Some <==> painted(ops@),
        r is None ==> *final(cache) == *old(cache),
        r matches Some(cw) ==> {
            &&& (final(cache).entries@, cw.keep@) == seize_spec(old(cache).entries@, keys@, keys@.len())
            &&& final(cache).retired == old(cache).retired
            &&& final(cache).held().add(cw.keep@.to_multiset()) == old(cache).held()
            &&& cw == (ClosingWindow { ops, keep: cw.keep, rect, style, done: false })
        },
{
    let ghost p = |i: Item| paints(i);
    let any_paint: bool = any(&ops, |i: &Item| -> (b: bool) ensures b == paints(*i) { i.paints() }, Ghost(p));
    proof {
        if any_paint {
            let j = choose|j: int| 0 <= j < ops@.len() && p(#[trigger] ops@[j]);
            assert(paints(ops@[j]));
        }
        if painted(ops@) {
            let j = choose|j: int| 0 <= j < ops@.len() && paints(#[trigger] ops@[j]);
            assert(p(ops@[j]));
        }
    }
    if !any_paint {
        return None;
    }
    let keep: Vec<u64> = cache.seize(keys);
    Some(ClosingWindow { ops, keep, rect, style, done: false })
}

pub open spec fn opens(owner: Owner) -> spec_fn(Item) -> bool {
    |i: Item| i == Item::Open(owner)
}

/// Where the batch that is `depth` deep at `i` closes.
pub open spec fn closes_at(items: Seq<Item>, i: int, depth: nat) -> Option<int>
    decreases items.len() - i,
{
    if i < 0 || i >= items.len() {
        None
    } else {
        match items[i] {
            Item::Open(_) => closes_at(items, i + 1, depth + 1),
            Item::Close => if depth <= 1 {
                Some(i)
            } else {
                closes_at(items, i + 1, (depth - 1) as nat)
            },
            _ => closes_at(items, i + 1, depth),
        }
    }
}

/// What a frame holds for its owner: the items between its opening and where that closes.
pub open spec fn batch_spec(items: Seq<Item>, owner: Owner) -> Seq<Item> {
    match first_slot(items, opens(owner)) {
        None => Seq::empty(),
        Some(k) => match closes_at(items, k + 1, 1) {
            None => Seq::empty(),
            Some(e) => items.subrange(k + 1, e),
        },
    }
}

/// What a frame painted for its owner, without what it noted beside it, and the textures that
/// it samples: the last one outlives the surface when it closes.
pub fn batch_of(items: &Vec<Item>, owner: Owner) -> (r: (Vec<Item>, Vec<TexKey>))
    ensures
        (r.0)@ == batch_spec(items@, owner).filter(not_bookkeeping()),
        (r.1)@ == live_of(batch_spec(items@, owner)),
{
    let mut batch: Vec<Item> = Vec::new();
    let n: usize = items.len();
    match find(
        items,
        |i: &Item| -> (b: bool) ensures b == (*i == Item::Open(owner)) { match i { Item::Open(o) => *o == owner, _ => false } },
        Ghost(opens(owner)),
    ) {
        None => {},
        Some(k) => match close_of(items, n, k + 1) {
            None => {},
            Some(e) => {
                let mut j: usize = k + 1;
                assert(batch@ =~= items@.subrange(k + 1, j as int));
                while j < e
                    invariant
                        k < j <= e < items@.len(),
                        batch@ == items@.subrange(k + 1, j as int),
                    decreases e - j,
                {
                    batch.push(items[j]);
                    assert(batch@ =~= items@.subrange(k + 1, j + 1));
                    j = j + 1;
                }
            },
        },
    }
    assert(batch@ =~= batch_spec(items@, owner));
    let keys: Vec<TexKey> = live_keys(&batch);
    retain(
        &mut batch,
        |i: &Item| -> (b: bool) ensures b == not_bookkeeping()(*i) { i.not_bookkeeping() },
        Ghost(not_bookkeeping()),
    );
    (batch, keys)
}

fn close_of(items: &Vec<Item>, n: usize, from: usize) -> (r: Option<usize>)
    requires
        n == items@.len(),
        1 <= from <= n,
    ensures
        match closes_at(items@, from as int, 1) {
            None => r is None,
            Some(e) => r == Some(e as usize) && from <= e < items@.len(),
        },
{
    let mut depth: usize = 1;
    let mut i: usize = from;
    while i < n
        invariant
            n == items@.len(),
            1 <= from <= i <= n,
            1 <= depth <= 1 + (i - from),
            closes_at(items@, from as int, 1) == closes_at(items@, i as int, depth as nat),
        decreases n - i,
    {
        match items[i] {
            Item::Open(_) => {
                depth = depth + 1;
            },
            Item::Close => {
                if depth <= 1 {
                    return Some(i);
                }
                depth = depth - 1;
            },
            _ => {},
        }
        i = i + 1;
    }
    None
}

/// Items that neither open nor close a batch.
pub open spec fn flat(items: Seq<Item>) -> bool {
    forall|i: int| 0 <= i < items.len() ==> !(#[trigger] items[i] is Open) && !(items[i] is Close)
}

pub(crate) proof fn trees_are_flat(p: Pen, entries: Seq<TexEntry>, n: SurfaceNode, x: int, y: int)
    ensures
        flat(tree_items(p, entries, n, x, y)),
    decreases n, 0nat,
{
    if n.info.mapped {
        subs_are_flat(p, entries, n.below@, n.below@.len(), x, y);
        subs_are_flat(p, entries, n.above@, n.above@.len(), x, y);
        assert(flat(feedback_items(n.latched@)));
        assert(flat(buffer_items(p, entries, n.info, x, y)));
    }
}

proof fn subs_are_flat(p: Pen, entries: Seq<TexEntry>, subs: Seq<SubNode>, n: nat, x: int, y: int)
    ensures
        flat(subs_items(p, entries, subs, n, x, y)),
    decreases subs, n,
{
    if n > 0 && n <= subs.len() {
        let s = subs[n - 1];
        subs_are_flat(p, entries, subs, (n - 1) as nat, x, y);
        if !s.pending {
            trees_are_flat(p, entries, s.surface, x + s.pos.0, y + s.pos.1);
        }
    }
}

proof fn popup_is_flat(p: Pen, entries: Seq<TexEntry>, n: PopupNode, ox: int, oy: int)
    ensures
        flat(popup_items(p, entries, n, ox, oy)),
    decreases n, 0nat,
{
    if n.surface.info.mapped {
        trees_are_flat(p, entries, n.surface, ox + n.rel.0 - n.geo.0, oy + n.rel.1 - n.geo.1);
        popups_are_flat(p, entries, n.popups@, n.popups@.len(), ox + n.rel.0, oy + n.rel.1);
    }
}

pub(crate) proof fn popups_are_flat(p: Pen, entries: Seq<TexEntry>, ps: Seq<PopupNode>, n: nat, ox: int, oy: int)
    ensures
        flat(popups_items(p, entries, ps, n, ox, oy)),
    decreases ps, n,
{
    if n > 0 && n <= ps.len() {
        popups_are_flat(p, entries, ps, (n - 1) as nat, ox, oy);
        popup_is_flat(p, entries, ps[n - 1], ox, oy);
    }
}

proof fn flat_runs_close_behind(items: Seq<Item>, i: int, e: int)
    requires
        0 <= i <= e < items.len(),
        flat(items.subrange(i, e)),
        items[e] is Close,
    ensures
        closes_at(items, i, 1) == Some(e),
    decreases e - i,
{
    if i < e {
        assert(items.subrange(i, e)[0] == items[i]);
        assert forall|j: int| 0 <= j < items.subrange(i + 1, e).len() implies !(#[trigger] items.subrange(i + 1, e)[j] is Open)
            && !(items.subrange(i + 1, e)[j] is Close) by {
            assert(items.subrange(i + 1, e)[j] == items.subrange(i, e)[j + 1]);
        }
        flat_runs_close_behind(items, i + 1, e);
    }
}

/// A flat run between its owner's brackets is the owner's batch.
proof fn bracketed_runs_are_batches(before: Seq<Item>, owner: Owner, inner: Seq<Item>, after: Seq<Item>)
    requires
        flat(inner),
        forall|i: int| 0 <= i < before.len() ==> #[trigger] before[i] != Item::Open(owner),
    ensures
        batch_spec(before + (seq![Item::Open(owner)] + inner + seq![Item::Close]) + after, owner) == inner,
{
    let items = before + (seq![Item::Open(owner)] + inner + seq![Item::Close]) + after;
    let k = before.len() as int;
    let e = k + 1 + inner.len();
    assert(items[k] == Item::Open(owner));
    assert forall|j: int| 0 <= j < k implies !opens(owner)(#[trigger] items[j]) by {
        assert(items[j] == before[j]);
    }
    first_slot_found(items, opens(owner), k);
    assert(items.subrange(k + 1, e) =~= inner);
    assert(items[e] == Item::Close);
    flat_runs_close_behind(items, k + 1, e);
}

proof fn flat_together(a: Seq<Item>, b: Seq<Item>)
    requires
        flat(a),
        flat(b),
    ensures
        flat(a + b),
{
}

/// What a window paints between its brackets.
pub open spec fn window_inner(v: Stage, entries: Seq<TexEntry>, w: WindowNode) -> Seq<Item> {
    animating_items(w.animating) + shadow_items(v.pos, v.cfg, w) + window_border_items(v, w) + tree_items(
        window_pen(v.pos, v.cfg, w),
        entries,
        w.surface,
        w.rect.x1 - w.geo.0,
        w.rect.y1 - w.geo.1,
    ) + window_popup_items(v, entries, w)
}

pub(crate) proof fn windows_are_flat(v: Stage, entries: Seq<TexEntry>, w: WindowNode)
    ensures
        flat(window_inner(v, entries, w)),
{
    let (a, b, c) = (animating_items(w.animating), shadow_items(v.pos, v.cfg, w), window_border_items(v, w));
    let t = tree_items(
        window_pen(v.pos, v.cfg, w),
        entries,
        w.surface,
        w.rect.x1 - w.geo.0,
        w.rect.y1 - w.geo.1,
    );
    let p = window_popup_items(v, entries, w);
    assert(flat(a) && flat(b) && flat(c));
    trees_are_flat(window_pen(v.pos, v.cfg, w), entries, w.surface, w.rect.x1 - w.geo.0, w.rect.y1 - w.geo.1);
    if w.popups is Some {
        let ps = w.popups->0;
        popups_are_flat(screen_pen(v.pos, v.screen), entries, ps@, ps@.len(), w.rect.x1 as int, w.rect.y1 as int);
    }
    assert(flat(p));
    flat_together(a, b);
    flat_together(a + b, c);
    flat_together(a + b + c, t);
    flat_together(a + b + c + t, p);
}

pub(crate) proof fn windows_are_bracketed(v: Stage, entries: Seq<TexEntry>, w: WindowNode)
    requires
        w.surface.info.mapped,
    ensures
        window_items(v, entries, w) == seq![Item::Open(Owner::Window(w.id))] + window_inner(v, entries, w) + seq![
            Item::Close,
        ],
{
    let o = seq![Item::Open(Owner::Window(w.id))];
    let (a, b, c) = (animating_items(w.animating), shadow_items(v.pos, v.cfg, w), window_border_items(v, w));
    let t = tree_items(
        window_pen(v.pos, v.cfg, w),
        entries,
        w.surface,
        w.rect.x1 - w.geo.0,
        w.rect.y1 - w.geo.1,
    );
    let p = window_popup_items(v, entries, w);
    assert(o + a + b + c + t + p =~= o + (a + b + c + t + p));
}

/// Leaving out what is not painted takes no paint away: a batch has something to animate
/// exactly when the frame painted something for its owner.
pub proof fn batches_keep_their_paint(items: Seq<Item>)
    ensures
        painted(items.filter(not_bookkeeping())) == painted(items),
{
    let kept = items.filter(not_bookkeeping());
    if painted(items) {
        let i = choose|i: int| 0 <= i < items.len() && paints(#[trigger] items[i]);
        filter_members(items, not_bookkeeping(), items[i]);
        assert(items.contains(items[i]));
        let j = choose|j: int| 0 <= j < kept.len() && kept[j] == items[i];
        assert(paints(kept[j]));
    }
    if painted(kept) {
        let j = choose|j: int| 0 <= j < kept.len() && paints(#[trigger] kept[j]);
        filter_members(items, not_bookkeeping(), kept[j]);
        assert(kept.contains(kept[j]));
        let i = choose|i: int| 0 <= i < items.len() && items[i] == kept[j];
        assert(paints(items[i]));
    }
}

/// A surface of which the frame could draw nothing closes at once: a batch that only notes
/// what the frame claims, samples, lacks or keeps running has nothing to animate.
pub proof fn notes_alone_leave_nothing(items: Seq<Item>)
    requires
        forall|i: int|
            0 <= i < items.len() ==> (#[trigger] items[i] is Feedback || items[i] is Live || items[i] is Wanting
                || items[i] is Animating),
    ensures
        !painted(items),
        items.filter(not_bookkeeping()).len() == 0,
{
    let kept = items.filter(not_bookkeeping());
    if kept.len() > 0 {
        filter_members(items, not_bookkeeping(), kept[0]);
        assert(kept.contains(kept[0]));
        let i = choose|i: int| 0 <= i < items.len() && items[i] == kept[0];
        assert(items[i] is Feedback || items[i] is Live || items[i] is Wanting || items[i] is Animating);
    }
}

/// The batch of a mapped window is all that the frame painted for it, wherever in the frame
/// that stands.
pub proof fn windows_form_one_batch(v: Stage, entries: Seq<TexEntry>, w: WindowNode, before: Seq<Item>, after: Seq<Item>)
    requires
        w.surface.info.mapped,
        forall|i: int| 0 <= i < before.len() ==> #[trigger] before[i] != Item::Open(Owner::Window(w.id)),
    ensures
        batch_spec(before + window_items(v, entries, w) + after, Owner::Window(w.id)) == window_inner(v, entries, w),
        painted(
            batch_spec(before + window_items(v, entries, w) + after, Owner::Window(w.id)).filter(not_bookkeeping()),
        ) == painted(window_inner(v, entries, w)),
{
    batches_keep_their_paint(window_inner(v, entries, w));
    windows_are_flat(v, entries, w);
    windows_are_bracketed(v, entries, w);
    bracketed_runs_are_batches(before, Owner::Window(w.id), window_inner(v, entries, w), after);
}

/// Seizes the final batch of a window, which keeps none, and its textures.
pub fn capture_closing(
    cache: &mut TexCache,
    batch: &mut Vec<Item>,
    keys: &mut Vec<TexKey>,
    rect: Rect,
    style: Style,
) -> (r: Option<ClosingWindow>)
    requires
        old(cache).wf(),
    ensures
        final(cache).wf(),
        final(batch)@.len() == 0,
        final(keys)@.len() == 0,
        r is Some <==> painted(old(batch)@),
        r is None ==> *final(cache) == *old(cache),
        r matches Some(cw) ==> {
            &&& (final(cache).entries@, cw.keep@) == seize_spec(old(cache).entries@, old(keys)@, old(keys)@.len())
            &&& final(cache).retired == old(cache).retired
            &&& final(cache).held().add(cw.keep@.to_multiset()) == old(cache).held()
            &&& cw.ops@ == old(batch)@
            &&& cw == (ClosingWindow { ops: cw.ops, keep: cw.keep, rect, style, done: false })
        },
{
    let mut ops: Vec<Item> = Vec::new();
    ops.append(batch);
    let mut sampled: Vec<TexKey> = Vec::new();
    sampled.append(keys);
    assert(ops@ =~= old(batch)@ && sampled@ =~= old(keys)@);
    seize_batch(cache, ops, &sampled, rect, style)
}

/// Makes room: at the cap the oldest entry goes.
pub fn cap_evict(list: &mut Vec<ClosingWindow>) -> (r: Option<ClosingWindow>)
    ensures
        old(list)@.len() < 8 ==> r is None && final(list)@ == old(list)@,
        old(list)@.len() >= 8 ==> r == Some(old(list)@[0]) && final(list)@ == old(list)@.skip(1),
{
    if list.len() >= CLOSING_CAP {
        let o: ClosingWindow = list.remove(0);
        assert(list@ =~= old(list)@.skip(1));
        return Some(o);
    }
    None
}

/// Stashes a closing window; the evicted entry's textures go to the retire queue.
pub fn push_closing(list: &mut Vec<ClosingWindow>, retired: &mut Vec<u64>, cw: ClosingWindow)
    ensures
        old(list)@.len() < 8 ==> final(list)@ == old(list)@.push(cw) && final(retired)@ == old(retired)@,
        old(list)@.len() >= 8 ==> final(list)@ == old(list)@.skip(1).push(cw) && final(retired)@ == old(
            retired,
        )@ + old(list)@[0].keep@,
{
    match cap_evict(list) {
        Some(o) => {
            let mut keep: Vec<u64> = o.keep;
            retired.append(&mut keep);
        },
        None => {},
    }
    list.push(cw);
}

/// The stash stays bounded.
pub proof fn stash_is_bounded(list: Seq<ClosingWindow>, cw: ClosingWindow)
    requires
        list.len() <= 8,
    ensures
        (if list.len() < 8 { list.push(cw) } else { list.skip(1).push(cw) }).len() <= 8,
{
}

pub open spec fn unfinished() -> spec_fn(ClosingWindow) -> bool {
    |c: ClosingWindow| !c.done
}

/// The textures of the finished entries among the first `n`, in order.
pub open spec fn finished_textures(list: Seq<ClosingWindow>, n: nat) -> Seq<u64>
    decreases n,
{
    if n == 0 {
        Seq::empty()
    } else {
        finished_textures(list, (n - 1) as nat) + (if list[n - 1].done {
            list[n - 1].keep@
        } else {
            Seq::empty()
        })
    }
}

/// The stash as a frame draws it: finished entries leave, their textures retire, and the rest
/// are replayed in order, each by its place in the stash.
pub fn replay_closing(list: &mut Vec<ClosingWindow>, cache: &mut TexCache) -> (ids: Vec<u64>)
    ensures
        final(list)@ == old(list)@.filter(unfinished()),
        final(cache).retired@ == old(cache).retired@ + finished_textures(old(list)@, old(list)@.len()),
        *final(cache) == (TexCache { retired: final(cache).retired, ..*old(cache) }),
        ids@ == Seq::new(final(list)@.len(), |i: int| i as u64),
{
    drop_finished(list, &mut cache.retired);
    let mut ids: Vec<u64> = Vec::new();
    let n: usize = list.len();
    for i in 0..n
        invariant
            ids@ == Seq::new(i as nat, |j: int| j as u64),
    {
        ids.push(i as u64);
        assert(ids@ =~= Seq::new((i + 1) as nat, |j: int| j as u64));
    }
    ids
}

/// Finished entries leave the stash and their textures retire.
pub fn drop_finished(list: &mut Vec<ClosingWindow>, retired: &mut Vec<u64>)
    ensures
        final(list)@ == old(list)@.filter(unfinished()),
        final(retired)@ == old(retired)@ + finished_textures(old(list)@, old(list)@.len()),
{
    let ghost all = list@;
    let ghost had = retired@;
    let n: usize = list.len();
    let mut kept: usize = 0;
    proof {
        reveal(Seq::filter);
        assert(all.take(0).filter(unfinished()) =~= Seq::<ClosingWindow>::empty());
        assert(had + Seq::<u64>::empty() =~= had);
        assert(list@ =~= all.take(0).filter(unfinished()) + all.skip(0));
    }
    for i in 0..n
        invariant
            n == all.len(),
            kept == all.take(i as int).filter(unfinished()).len(),
            list@ == all.take(i as int).filter(unfinished()) + all.skip(i as int),
            retired@ == had + finished_textures(all, i as nat),
    {
        proof {
            reveal(Seq::filter);
            assert(all.take(i + 1).drop_last() =~= all.take(i as int));
            assert(all.skip(i as int)[0] == all[i as int]);
            assert(list@[kept as int] == all[i as int]);
        }
        let ghost before = list@;
        let ghost front = all.take(i as int).filter(unfinished());
        if list[kept].done {
            let c: ClosingWindow = list.remove(kept);
            let mut keep: Vec<u64> = c.keep;
            retired.append(&mut keep);
            proof {
                assert(list@ =~= front + all.skip(i + 1));
                assert(retired@ =~= had + finished_textures(all, (i + 1) as nat));
            }
        } else {
            kept = kept + 1;
            proof {
                assert(before =~= front.push(all[i as int]) + all.skip(i + 1));
                assert(retired@ =~= had + finished_textures(all, (i + 1) as nat));
            }
        }
    }
    proof {
        assert(all.take(n as int) =~= all);
        assert(list@ =~= all.filter(unfinished()));
    }
}

} // verus!
