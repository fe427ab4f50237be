//! Bringing heads up, tearing them down, and re-tiling what is left.
use crate::output::{first_slot, first_slot_absent, first_slot_found, first_slot_is_lowest, sizes_fit, Output};
use crate::rect::Rect;
use vstd::prelude::*;

verus! {

/// Total width of the first `n` outputs.
pub open spec fn span(outs: Seq<Output>, n: nat) -> int
    decreases n,
{
    if n == 0 {
        0
    } else {
        span(outs, (n - 1) as nat) + outs[n - 1].width
    }
}

proof fn span_monotone(outs: Seq<Output>, m: nat, n: nat)
    requires
        m <= n <= outs.len(),
    ensures
        0 <= span(outs, m) <= span(outs, n),
    decreases n,
{
    if m < n {
        span_monotone(outs, m, (n - 1) as nat);
    } else if n > 0 {
        span_monotone(outs, (m - 1) as nat, (n - 1) as nat);
    }
}

/// The output in slot `i` once the row is tiled left to right from zero.
pub open spec fn tiled(outs: Seq<Output>, i: int) -> Output {
    let moved = Output { index: i as usize, pos: (span(outs, i as nat) as i32, 0i32), ..outs[i] };
    Output { usable: moved.rect_spec(), ..moved }
}

pub open spec fn tiled_all(outs: Seq<Output>) -> Seq<Output> {
    Seq::new(outs.len(), |i: int| tiled(outs, i))
}

/// Re-tiles every output left to right and resets its usable box.
pub fn tile(outs: &mut Vec<Output>)
    requires
        sizes_fit(old(outs)@),
        span(old(outs)@, old(outs)@.len()) <= i32::MAX,
    ensures
        final(outs)@ == tiled_all(old(outs)@),
{
    let n: usize = outs.len();
    let mut x: i32 = 0;
    for i in 0..n
        invariant
            n == outs@.len(),
            n == old(outs)@.len(),
            sizes_fit(old(outs)@),
            span(old(outs)@, n as nat) <= i32::MAX,
            x == span(old(outs)@, i as nat),
            forall|j: int| 0 <= j < i ==> outs@[j] == tiled(old(outs)@, j),
            forall|j: int| i <= j < n ==> outs@[j] == old(outs)@[j],
    {
        proof {
            span_monotone(old(outs)@, (i + 1) as nat, n as nat);
            assert(outs@[i as int] == old(outs)@[i as int]);
        }
        outs[i].index = i;
        outs[i].pos = (x, 0);
        let r: Rect = outs[i].rect();
        outs[i].usable = r;
        x = x + outs[i].width as i32;
    }
    assert(outs@ =~= tiled_all(old(outs)@));
}

/// Tiled outputs touch: each starts where its left neighbour ends.
pub proof fn tiled_outputs_touch(outs: Seq<Output>, i: int)
    requires
        sizes_fit(outs),
        span(outs, outs.len()) <= i32::MAX,
        0 <= i < outs.len() - 1,
    ensures
        tiled_all(outs)[i].rect_spec().x2 == tiled_all(outs)[i + 1].rect_spec().x1,
{
    span_monotone(outs, i as nat, outs.len());
    span_monotone(outs, (i + 1) as nat, outs.len());
}

/// The farthest value of `far` over the first `n` outputs; `none` without any.
pub open spec fn farthest(outs: Seq<Output>, far: spec_fn(Output) -> int, none: int, n: nat) -> int
    decreases n,
{
    if n == 0 {
        none
    } else if n == 1 {
        far(outs[0])
    } else {
        let rest = farthest(outs, far, none, (n - 1) as nat);
        let here = far(outs[n - 1]);
        if here > rest { here } else { rest }
    }
}

pub open spec fn right_edge() -> spec_fn(Output) -> int {
    |o: Output| o.rect_spec().x2 as int
}

pub open spec fn bottom_edge() -> spec_fn(Output) -> int {
    |o: Output| o.rect_spec().y2 as int
}

/// The union's far corner; `none` on each axis without outputs.
pub fn union_extent(outs: &Vec<Output>, none: i32) -> (r: (i32, i32))
    requires
        sizes_fit(outs@),
    ensures
        r.0 == farthest(outs@, right_edge(), none as int, outs@.len()),
        r.1 == farthest(outs@, bottom_edge(), none as int, outs@.len()),
{
    let mut w: i32 = none;
    let mut h: i32 = none;
    for i in 0..outs.len()
        invariant
            sizes_fit(outs@),
            w == farthest(outs@, right_edge(), none as int, i as nat),
            h == farthest(outs@, bottom_edge(), none as int, i as nat),
    {
        let r: Rect = outs[i].rect();
        if i == 0 || r.x2 > w {
            w = r.x2;
        }
        if i == 0 || r.y2 > h {
            h = r.y2;
        }
    }
    (w, h)
}

pub open spec fn has_uid(uid: u64) -> spec_fn(Output) -> bool {
    |o: Output| o.uid == uid
}

/// Where the output with this identity sits now.
pub fn slot_of(outs: &Vec<Output>, uid: u64) -> (r: Option<usize>)
    ensures
        match r {
            Some(k) => first_slot(outs@, has_uid(uid)) == Some(k as int) && k < outs@.len(),
            None => first_slot(outs@, has_uid(uid)) is None,
        },
{
    for i in 0..outs.len()
        invariant
            forall|j: int| 0 <= j < i ==> !has_uid(uid)(#[trigger] outs@[j]),
    {
        if outs[i].uid == uid {
            proof {
                first_slot_found(outs@, has_uid(uid), i as int);
            }
            return Some(i);
        }
    }
    proof {
        first_slot_absent(outs@, has_uid(uid));
    }
    None
}

/// Where an old slot went: by identity, and `None` for a slot whose output left.
pub open spec fn survivor_spec(before: Seq<u64>, outs: Seq<Output>, slot: int) -> Option<int> {
    if 0 <= slot < before.len() {
        first_slot(outs, has_uid(before[slot]))
    } else {
        None
    }
}

/// An old slot's new slot; what fell off lands on slot zero.
pub open spec fn remap_spec(before: Seq<u64>, outs: Seq<Output>, slot: int) -> int {
    match survivor_spec(before, outs, slot) {
        Some(k) => k,
        None => 0,
    }
}

pub fn survivor(before: &Vec<u64>, outs: &Vec<Output>, slot: usize) -> (r: Option<usize>)
    ensures
        match r {
            Some(k) => survivor_spec(before@, outs@, slot as int) == Some(k as int) && k < outs@.len(),
            None => survivor_spec(before@, outs@, slot as int) is None,
        },
{
    if slot < before.len() {
        slot_of(outs, before[slot])
    } else {
        None
    }
}

pub fn remap(before: &Vec<u64>, outs: &Vec<Output>, slot: usize) -> (r: usize)
    ensures
        r == remap_spec(before@, outs@, slot as int),
{
    match survivor(before, outs, slot) {
        Some(k) => k,
        None => 0,
    }
}

/// A layer surface as the layout sees it.
#[derive(Clone, Copy, Debug, PartialEq, Eq, Structural)]
pub struct LayerPin {
    pub id: u64,
    pub output: usize,
    /// the surface exists and is mapped
    pub shown: bool,
}

/// What happens to one layer surface when outputs come and go.
#[derive(Clone, Copy, Debug, PartialEq, Eq, Structural)]
pub enum LayerMove {
    /// its output left: the surface is closed, never moved elsewhere; `named` when the
    /// output it leaves is known
    Close { id: u64, named: bool },
    /// its output survived in this slot; `announce` when it must re-learn its screen
    Keep { id: u64, slot: usize, announce: bool },
}

pub open spec fn layer_move_spec(before: Seq<u64>, outs: Seq<Output>, pin: LayerPin) -> LayerMove {
    match survivor_spec(before, outs, pin.output as int) {
        None => LayerMove::Close { id: pin.id, named: pin.output < before.len() },
        Some(k) => LayerMove::Keep {
            id: pin.id,
            slot: k as usize,
            announce: k != pin.output && pin.shown,
        },
    }
}

/// Layer surfaces stay pinned to their output: they follow it, or close with it.
pub fn layer_moves(before: &Vec<u64>, outs: &Vec<Output>, pins: &Vec<LayerPin>) -> (r: Vec<LayerMove>)
    ensures
        r@.len() == pins@.len(),
        forall|i: int| 0 <= i < pins@.len() ==> r@[i] == layer_move_spec(before@, outs@, #[trigger] pins@[i]),
{
    let mut out: Vec<LayerMove> = Vec::new();
    for i in 0..pins.len()
        invariant
            out@.len() == i,
            forall|j: int| 0 <= j < i ==> out@[j] == layer_move_spec(before@, outs@, #[trigger] pins@[j]),
    {
        let pin: LayerPin = pins[i];
        match survivor(before, outs, pin.output) {
            None => out.push(LayerMove::Close { id: pin.id, named: pin.output < before.len() }),
            Some(k) => out.push(LayerMove::Keep {
                id: pin.id,
                slot: k,
                announce: k != pin.output && pin.shown,
            }),
        }
    }
    out
}

pub open spec fn bound_to(slot: usize) -> spec_fn(usize) -> bool {
    |b: usize| b == slot
}

/// The workspace output `slot` shows, given the one it showed, and the bindings
/// after that: kept while bound to it, else the first workspace bound to it,
/// else a fresh one.
pub open spec fn shown_spec(bound: Seq<usize>, slot: usize, cur: usize) -> (usize, Seq<usize>) {
    if cur < bound.len() && bound[cur as int] == slot {
        (cur, bound)
    } else {
        match first_slot(bound, bound_to(slot)) {
            Some(k) => (k as usize, bound),
            None => (bound.len() as usize, bound.push(slot)),
        }
    }
}

/// Settles the first `n` outputs in order.
pub open spec fn settle_spec(outs: Seq<Output>, bound: Seq<usize>, n: nat) -> (Seq<Output>, Seq<usize>)
    decreases n,
{
    if n == 0 {
        (outs, bound)
    } else {
        let (o, b) = settle_spec(outs, bound, (n - 1) as nat);
        let (w, b2) = shown_spec(b, o[n - 1].index, o[n - 1].ws);
        (o.update(n - 1, Output { ws: w, ..o[n - 1] }), b2)
    }
}

/// Settling changes nothing of an output but its workspace, and moves no binding.
pub proof fn settle_keeps_rest(outs: Seq<Output>, bound: Seq<usize>, n: nat)
    requires
        n <= outs.len(),
    ensures
        settle_spec(outs, bound, n).0.len() == outs.len(),
        forall|i: int| n <= i < outs.len() ==> settle_spec(outs, bound, n).0[i] == outs[i],
        forall|i: int| 0 <= i < outs.len() ==> {
            let o = #[trigger] settle_spec(outs, bound, n).0[i];
            o == Output { ws: o.ws, ..outs[i] }
        },
        bound.len() <= settle_spec(outs, bound, n).1.len() <= bound.len() + n,
        forall|k: int| 0 <= k < bound.len() ==> settle_spec(outs, bound, n).1[k] == bound[k],
    decreases n,
{
    if n > 0 {
        settle_keeps_rest(outs, bound, (n - 1) as nat);
    }
}

/// Every output ends up showing a workspace that is bound to it, and no
/// existing binding moves.
pub proof fn every_output_shows_its_own(outs: Seq<Output>, bound: Seq<usize>, n: nat, i: int)
    requires
        n <= outs.len(),
        0 <= i < n,
        bound.len() + outs.len() <= usize::MAX,
    ensures
        settle_spec(outs, bound, n).0[i].ws < settle_spec(outs, bound, n).1.len(),
        settle_spec(outs, bound, n).1[settle_spec(outs, bound, n).0[i].ws as int] == outs[i].index,
        forall|k: int| 0 <= k < bound.len() ==> settle_spec(outs, bound, n).1[k] == bound[k],
    decreases n,
{
    let m = (n - 1) as nat;
    settle_keeps_rest(outs, bound, m);
    settle_keeps_rest(outs, bound, n);
    let (o, b) = settle_spec(outs, bound, m);
    if i < n - 1 {
        every_output_shows_its_own(outs, bound, m, i);
    } else {
        first_slot_is_lowest(b, bound_to(o[n - 1].index));
    }
}

/// Gives every output a workspace bound to it, making one where none is.
pub fn settle(outs: &mut Vec<Output>, bound: &mut Vec<usize>)
    requires
        old(bound)@.len() + old(outs)@.len() <= usize::MAX,
    ensures
        (final(outs)@, final(bound)@) == settle_spec(old(outs)@, old(bound)@, old(outs)@.len()),
{
    let n: usize = outs.len();
    let ghost before = outs@;
    let ghost had = bound@;
    for i in 0..n
        invariant
            n == before.len(),
            n == outs@.len(),
            had.len() + n <= usize::MAX,
            (outs@, bound@) == settle_spec(before, had, i as nat),
    {
        proof {
            settle_keeps_rest(before, had, i as nat);
            settle_keeps_rest(before, had, (i + 1) as nat);
        }
        let slot: usize = outs[i].index;
        let cur: usize = outs[i].ws;
        if cur < bound.len() && bound[cur] == slot {
            assert(outs@.update(i as int, Output { ws: cur, ..outs@[i as int] }) =~= outs@);
        } else {
            let w: usize = match find_bound(bound, slot) {
                Some(k) => k,
                None => {
                    bound.push(slot);
                    bound.len() - 1
                },
            };
            outs[i].ws = w;
        }
    }
}

fn find_bound(bound: &Vec<usize>, slot: usize) -> (r: Option<usize>)
    ensures
        match r {
            Some(k) => first_slot(bound@, bound_to(slot)) == Some(k as int) && k < bound@.len(),
            None => first_slot(bound@, bound_to(slot)) is None,
        },
{
    for i in 0..bound.len()
        invariant
            forall|j: int| 0 <= j < i ==> !bound_to(slot)(#[trigger] bound@[j]),
    {
        if bound[i] == slot {
            proof {
                first_slot_found(bound@, bound_to(slot), i as int);
            }
            return Some(i);
        }
    }
    proof {
        first_slot_absent(bound@, bound_to(slot));
    }
    None
}

/// Bindings that outlive any one output.
pub struct Layout {
    /// the output slot each workspace is bound to
    pub bound: Vec<usize>,
    pub focused: usize,
    pub active_ws: usize,
    /// the union's extent
    pub size: (u32, u32),
}

/// Every workspace binding, carried to the new slots.
pub open spec fn rebound(before: Seq<u64>, outs: Seq<Output>, bound: Seq<usize>) -> Seq<usize> {
    Seq::new(bound.len(), |k: int| remap_spec(before, outs, bound[k] as int) as usize)
}

/// The focused slot after a change: it follows its output, else falls to slot
/// zero, and never points past the last output.
pub open spec fn refocused(before: Seq<u64>, outs: Seq<Output>, focused: usize) -> usize {
    let slot = remap_spec(before, outs, focused as int) as usize;
    let last: usize = if outs.len() == 0 { 0 } else { (outs.len() - 1) as usize };
    if slot < last { slot } else { last }
}

proof fn remap_in_range(before: Seq<u64>, outs: Seq<Output>, slot: int)
    ensures
        0 <= remap_spec(before, outs, slot),
        outs.len() > 0 ==> remap_spec(before, outs, slot) < outs.len(),
        outs.len() == 0 ==> remap_spec(before, outs, slot) == 0,
{
    if 0 <= slot < before.len() {
        first_slot_is_lowest(outs, has_uid(before[slot]));
    }
}

proof fn farthest_at_least(outs: Seq<Output>, far: spec_fn(Output) -> int, none: int, n: nat, low: int)
    requires
        n <= outs.len(),
        low <= none,
        forall|i: int| 0 <= i < n ==> low <= far(#[trigger] outs[i]),
    ensures
        low <= farthest(outs, far, none, n),
    decreases n,
{
    if n > 1 {
        farthest_at_least(outs, far, none, (n - 1) as nat, low);
    }
}

/// The row `outs` tiled anew, and everything that was keyed by a slot carried over.
pub open spec fn relaid(
    outs: Seq<Output>,
    before: Seq<u64>,
    l: Layout,
    pins: Seq<LayerPin>,
    after: Seq<Output>,
    m: Layout,
    moves: Seq<LayerMove>,
) -> bool {
    &&& relaid_row(outs, before, l, after, m)
    &&& moves.len() == pins.len()
    &&& forall|i: int| 0 <= i < pins.len() ==> moves[i] == layer_move_spec(before, tiled_all(outs), #[trigger] pins[i])
}

/// The outputs and the bindings of that.
pub open spec fn relaid_row(outs: Seq<Output>, before: Seq<u64>, l: Layout, after: Seq<Output>, m: Layout) -> bool {
    let row = tiled_all(outs);
    let bound = rebound(before, row, l.bound@);
    &&& (after, m.bound@) == settle_spec(row, bound, row.len())
    &&& m.size.0 == farthest(row, right_edge(), 1, row.len())
    &&& m.size.1 == farthest(row, bottom_edge(), 1, row.len())
    &&& m.focused == refocused(before, row, l.focused)
    &&& m.active_ws == (if after.len() == 0 { 0 } else { after[m.focused as int].ws })
}

/// Re-tiles the row, carries every slot-keyed binding over by identity, and
/// leaves each output showing a workspace bound to it. `before` holds the
/// identities the old slots had. What the layer surfaces have to do is returned
/// in their order.
pub fn finish_topology(
    outs: &mut Vec<Output>,
    before: &Vec<u64>,
    l: &mut Layout,
    pins: &Vec<LayerPin>,
) -> (moves: Vec<LayerMove>)
    requires
        sizes_fit(old(outs)@),
        span(old(outs)@, old(outs)@.len()) <= i32::MAX,
        old(l).bound@.len() + old(outs)@.len() <= usize::MAX,
    ensures
        relaid(old(outs)@, before@, *old(l), pins@, final(outs)@, *final(l), moves@),
{
    tile(outs);
    let ghost row = outs@;
    proof {
        assert forall|i: int| 0 <= i < row.len() implies (#[trigger] row[i]).width <= i32::MAX && row[i].height
            <= i32::MAX by {
            assert(row[i].width == old(outs)@[i].width);
            assert(row[i].height == old(outs)@[i].height);
        }
        assert forall|i: int| 0 <= i < row.len() implies 0 <= right_edge()(#[trigger] row[i]) && 0
            <= bottom_edge()(row[i]) by {
            span_monotone(old(outs)@, i as nat, old(outs)@.len());
        }
        farthest_at_least(row, right_edge(), 1, row.len(), 0);
        farthest_at_least(row, bottom_edge(), 1, row.len(), 0);
    }
    let (w, h) = union_extent(outs, 1);
    l.size = (w as u32, h as u32);
    let n: usize = l.bound.len();
    let ghost had = l.bound@;
    for k in 0..n
        invariant
            n == l.bound@.len(),
            n == had.len(),
            outs@ == row,
            l.focused == old(l).focused,
            l.size == (w as u32, h as u32),
            forall|j: int| 0 <= j < k ==> l.bound@[j] == remap_spec(before@, row, had[j] as int),
            forall|j: int| k <= j < n ==> l.bound@[j] == had[j],
    {
        let slot: usize = l.bound[k];
        let next: usize = remap(before, outs, slot);
        l.bound[k] = next;
    }
    assert(l.bound@ =~= rebound(before@, row, had));
    let moves: Vec<LayerMove> = layer_moves(before, outs, pins);
    let slot: usize = remap(before, outs, l.focused);
    let last: usize = if outs.len() == 0 { 0 } else { outs.len() - 1 };
    l.focused = if slot < last { slot } else { last };
    proof {
        remap_in_range(before@, row, old(l).focused as int);
        settle_keeps_rest(row, l.bound@, row.len());
    }
    settle(outs, &mut l.bound);
    l.active_ws = if outs.len() == 0 { 0 } else { outs[l.focused].ws };
    moves
}

/// After a change of heads every output shows a workspace bound to its slot.
pub proof fn heads_keep_their_workspaces(outs: Seq<Output>, before: Seq<u64>, bound: Seq<usize>, i: int)
    requires
        bound.len() + outs.len() <= usize::MAX,
        0 <= i < outs.len(),
    ensures
        ({
            let row = tiled_all(outs);
            let after = settle_spec(row, rebound(before, row, bound), row.len());
            &&& after.0[i].ws < after.1.len()
            &&& after.1[after.0[i].ws as int] == i
        }),
{
    let row = tiled_all(outs);
    every_output_shows_its_own(row, rebound(before, row, bound), row.len(), i);
}

/// A surviving output keeps the workspaces bound to it: wherever its slot went,
/// their bindings followed.
pub proof fn bindings_follow_survivors(outs: Seq<Output>, before: Seq<u64>, bound: Seq<usize>, k: int)
    requires
        bound.len() + outs.len() <= usize::MAX,
        0 <= k < bound.len(),
        bound[k] < before.len(),
        first_slot(tiled_all(outs), has_uid(before[bound[k] as int])) is Some,
    ensures
        ({
            let row = tiled_all(outs);
            let after = settle_spec(row, rebound(before, row, bound), row.len());
            &&& after.1[k] < outs.len()
            &&& outs[after.1[k] as int].uid == before[bound[k] as int]
        }),
{
    let row = tiled_all(outs);
    settle_keeps_rest(row, rebound(before, row, bound), row.len());
    first_slot_is_lowest(row, has_uid(before[bound[k] as int]));
    let to = first_slot(row, has_uid(before[bound[k] as int]))->0;
    assert(rebound(before, row, bound)[k] == to);
    assert(row[to].uid == outs[to].uid);
}

pub open spec fn still_connected() -> spec_fn(Output) -> bool {
    |o: Output| o.connected
}

pub open spec fn has_left() -> spec_fn(Output) -> bool {
    |o: Output| !o.connected
}

proof fn filter_front<A>(x: A, rest: Seq<A>, p: spec_fn(A) -> bool)
    ensures
        (seq![x] + rest).filter(p) == (if p(x) { seq![x] } else { Seq::<A>::empty() }) + rest.filter(p),
{
    Seq::filter_distributes_over_add(seq![x], rest, p);
    reveal_with_fuel(Seq::filter, 2);
    assert(seq![x].drop_last() =~= Seq::<A>::empty());
    assert(seq![x].filter(p) =~= (if p(x) { seq![x] } else { Seq::<A>::empty() }));
}

/// Takes the outputs whose monitor left out of the row, last slot first, so
/// their crtcs free up before anything new arrives.
pub fn take_departed(outs: &mut Vec<Output>) -> (gone: Vec<Output>)
    ensures
        final(outs)@ == old(outs)@.filter(still_connected()),
        gone@ == old(outs)@.filter(has_left()).reverse(),
{
    let ghost all = outs@;
    let mut gone: Vec<Output> = Vec::new();
    let mut i: usize = outs.len();
    proof {
        assert(all.skip(all.len() as int) =~= Seq::<Output>::empty());
        reveal(Seq::filter);
        assert(outs@ =~= all.take(i as int) + all.skip(i as int).filter(still_connected()));
        assert(gone@ =~= all.skip(i as int).filter(has_left()).reverse());
    }
    while i > 0
        invariant
            i <= all.len(),
            outs@ == all.take(i as int) + all.skip(i as int).filter(still_connected()),
            gone@ == all.skip(i as int).filter(has_left()).reverse(),
        decreases i,
    {
        let ghost was = i as int;
        i = i - 1;
        proof {
            assert(all.skip(i as int) =~= seq![all[i as int]] + all.skip(was));
            filter_front(all[i as int], all.skip(was), still_connected());
            filter_front(all[i as int], all.skip(was), has_left());
            assert(outs@[i as int] == all[i as int]);
        }
        let ghost kept = outs@;
        let ghost lost = gone@;
        if !outs[i].connected {
            let o: Output = outs.remove(i);
            gone.push(o);
            assert(outs@ =~= all.take(i as int) + all.skip(i as int).filter(still_connected()));
            assert(gone@ =~= all.skip(i as int).filter(has_left()).reverse());
        } else {
            assert(kept =~= all.take(i as int) + all.skip(i as int).filter(still_connected()));
            assert(lost =~= all.skip(i as int).filter(has_left()).reverse());
        }
    }
    assert(all.skip(0) =~= all);
    assert(all.take(0) + all.filter(still_connected()) =~= all.filter(still_connected()));
    gone
}

/// A connector of the card, as the last probe left it.
#[derive(Clone, Copy, Debug)]
pub struct Connector {
    pub id: u32,
    /// a crtc and a primary plane are assigned
    pub piped: bool,
}

pub open spec fn on_connector(conn: u32) -> spec_fn(Output) -> bool {
    |o: Output| o.conn == conn
}

/// A connector that got a pipe but has no output yet.
pub open spec fn arriving(outs: Seq<Output>) -> spec_fn(Connector) -> bool {
    |c: Connector| c.piped && first_slot(outs, on_connector(c.id)) is None
}

fn has_output(outs: &Vec<Output>, conn: u32) -> (r: bool)
    ensures
        r == (first_slot(outs@, on_connector(conn)) is Some),
{
    for i in 0..outs.len()
        invariant
            forall|j: int| 0 <= j < i ==> !on_connector(conn)(#[trigger] outs@[j]),
    {
        if outs[i].conn == conn {
            proof {
                first_slot_found(outs@, on_connector(conn), i as int);
            }
            return true;
        }
    }
    proof {
        first_slot_absent(outs@, on_connector(conn));
    }
    false
}

/// The connectors to bring up, in probe order.
pub fn arrivals(known: &Vec<Connector>, outs: &Vec<Output>) -> (r: Vec<Connector>)
    ensures
        r@ == known@.filter(arriving(outs@)),
{
    let mut out: Vec<Connector> = Vec::new();
    proof {
        reveal(Seq::filter);
        assert(known@.take(0).filter(arriving(outs@)) =~= Seq::<Connector>::empty());
    }
    for i in 0..known.len()
        invariant
            out@ == known@.take(i as int).filter(arriving(outs@)),
    {
        let c: Connector = known[i];
        proof {
            reveal(Seq::filter);
            assert(known@.take(i + 1).drop_last() =~= known@.take(i as int));
        }
        if c.piped && !has_output(outs, c.id) {
            out.push(c);
        }
    }
    assert(known@.take(known@.len() as int) =~= known@);
    out
}

/// The head set of one commit: each connector with the framebuffer on glass.
pub open spec fn head_set(outs: Seq<Output>) -> Seq<(u32, u32)> {
    Seq::new(outs.len(), |i: int| (outs[i].conn, outs[i].front_fb_spec()))
}

/// All heads with what they show.
pub fn heads(outs: &Vec<Output>) -> (r: Vec<(u32, u32)>)
    ensures
        r@ == head_set(outs@),
{
    let mut out: Vec<(u32, u32)> = Vec::new();
    for i in 0..outs.len()
        invariant
            out@.len() == i,
            forall|j: int| 0 <= j < i ==> #[trigger] out@[j] == (outs@[j].conn, outs@[j].front_fb_spec()),
    {
        out.push((outs[i].conn, outs[i].front_fb()));
    }
    assert(out@ =~= head_set(outs@));
    out
}

/// What the card says of a connector.
pub struct Probe {
    /// one means that a monitor is there
    pub connection: u32,
    pub modes: Vec<u64>,
}

/// A connector as the probe leaves it: one that could not be asked stays as it was,
/// and the modes of one without a monitor are not touched.
pub struct Port {
    pub id: u32,
    pub connected: bool,
    pub modes: Vec<u64>,
}

pub open spec fn probed(a: Port, b: Port, p: Option<Probe>) -> bool {
    match p {
        None => b == a,
        Some(p) => b == (Port {
            connected: p.connection == 1,
            modes: if p.connection == 1 { p.modes } else { a.modes },
            ..a
        }),
    }
}

impl Port {
    /// Takes what the card said of the connector.
    pub fn probe(&mut self, p: Option<Probe>)
        ensures
            probed(*old(self), *final(self), p),
    {
        match p {
            None => {},
            Some(p) => {
                let now: bool = p.connection == 1;
                self.connected = now;
                if now {
                    self.modes = p.modes;
                }
            },
        }
    }
}

pub open spec fn port_of(conn: u32) -> spec_fn(Port) -> bool {
    |p: Port| p.id == conn
}

/// Whether the monitor of an output is there, by what its port says.
pub open spec fn monitor_there(ports: Seq<Port>, o: Output) -> bool {
    match first_slot(ports, port_of(o.conn)) {
        Some(k) => ports[k].connected,
        None => o.connected,
    }
}

/// The outputs as the ports see them.
pub open spec fn watched(ports: Seq<Port>, outs: Seq<Output>) -> Seq<Output> {
    Seq::new(outs.len(), |i: int| Output { connected: monitor_there(ports, outs[i]), ..outs[i] })
}

fn has_monitor(ports: &Vec<Port>, o: &Output) -> (r: bool)
    ensures
        r == monitor_there(ports@, *o),
{
    match crate::list::find(
        ports,
        |p: &Port| -> (b: bool) ensures b == (p.id == o.conn) { p.id == o.conn },
        Ghost(port_of(o.conn)),
    ) {
        Some(k) => ports[k].connected,
        None => o.connected,
    }
}

fn probe_all(ports: &mut Vec<Port>, probes: Vec<Option<Probe>>)
    requires
        probes@.len() == old(ports)@.len(),
    ensures
        final(ports)@.len() == old(ports)@.len(),
        forall|i: int|
            0 <= i < old(ports)@.len() ==> probed(old(ports)@[i], #[trigger] final(ports)@[i], probes@[i]),
{
    let ghost had = ports@;
    let ghost said = probes@;
    let mut left: Vec<Option<Probe>> = probes;
    let n: usize = ports.len();
    let mut i: usize = n;
    while i > 0
        invariant
            i <= n,
            n == had.len(),
            n == said.len(),
            ports@.len() == n,
            left@ == said.take(i as int),
            forall|j: int| 0 <= j < i ==> #[trigger] ports@[j] == had[j],
            forall|j: int| i <= j < n ==> probed(had[j], #[trigger] ports@[j], said[j]),
        decreases i,
    {
        i = i - 1;
        let p: Option<Probe> = match left.pop() {
            Some(p) => p,
            None => None,
        };
        assert(left@ =~= said.take(i as int));
        ports[i].probe(p);
    }
}

/// The first half of a rescan: takes what the card said of each connector, and the
/// outputs whose monitor left out of the row, last slot first.
pub fn rescan(outs: &mut Vec<Output>, ports: &mut Vec<Port>, probes: Vec<Option<Probe>>) -> (gone: Vec<Output>)
    requires
        probes@.len() == old(ports)@.len(),
    ensures
        final(ports)@.len() == old(ports)@.len(),
        forall|i: int|
            0 <= i < old(ports)@.len() ==> probed(old(ports)@[i], #[trigger] final(ports)@[i], probes@[i]),
        final(outs)@ == watched(final(ports)@, old(outs)@).filter(still_connected()),
        gone@ == watched(final(ports)@, old(outs)@).filter(has_left()).reverse(),
{
    probe_all(ports, probes);
    let ghost all = outs@;
    let n: usize = outs.len();
    for i in 0..n
        invariant
            n == all.len(),
            outs@.len() == n,
            forall|j: int| 0 <= j < i ==> #[trigger] outs@[j] == watched(ports@, all)[j],
            forall|j: int| i <= j < n ==> #[trigger] outs@[j] == all[j],
    {
        let there: bool = has_monitor(ports, &outs[i]);
        outs[i].connected = there;
    }
    assert(outs@ =~= watched(ports@, all));
    take_departed(outs)
}

/// The second half of a rescan: the heads that arrived join the row, which is laid out
/// anew. Returns the head set to commit and what the layer surfaces have to do.
/// `before` holds the identities that the slots had before the rescan.
pub fn replug(
    outs: &mut Vec<Output>,
    arrived: Vec<Output>,
    before: &Vec<u64>,
    l: &mut Layout,
    pins: &Vec<LayerPin>,
) -> (r: (Vec<(u32, u32)>, Vec<LayerMove>))
    requires
        sizes_fit(old(outs)@ + arrived@),
        span(old(outs)@ + arrived@, (old(outs)@ + arrived@).len()) <= i32::MAX,
        old(l).bound@.len() + old(outs)@.len() + arrived@.len() <= usize::MAX,
    ensures
        (r.0)@ == head_set(old(outs)@ + arrived@),
        relaid(old(outs)@ + arrived@, before@, *old(l), pins@, final(outs)@, *final(l), (r.1)@),
{
    let mut arrived = arrived;
    outs.append(&mut arrived);
    let set: Vec<(u32, u32)> = heads(outs);
    let moves: Vec<LayerMove> = finish_topology(outs, before, l, pins);
    (set, moves)
}

/// A monitor that left takes its output along, and no other output goes.
pub proof fn only_the_unplugged_leave(ports: Seq<Port>, outs: Seq<Output>, i: int)
    requires
        0 <= i < outs.len(),
    ensures
        ({
            let o = watched(ports, outs)[i];
            &&& monitor_there(ports, outs[i]) ==> watched(ports, outs).filter(still_connected()).contains(o)
            &&& !monitor_there(ports, outs[i]) ==> watched(ports, outs).filter(has_left()).contains(o)
        }),
{
    broadcast use vstd::seq_lib::group_filter_ensures;

    let all = watched(ports, outs);
    assert(all.contains(all[i]));
    if monitor_there(ports, outs[i]) {
        assert(still_connected()(all[i]));
    } else {
        assert(has_left()(all[i]));
    }
}

/// A display controller, and the connector it is reserved for; zero for none.
#[derive(Clone, Copy, Debug, PartialEq, Eq, Structural)]
pub struct Crtc {
    pub id: u32,
    pub connector: u32,
}

/// The controllers once a head is gone: its own is free, and so is one that was
/// reserved next door for the same connector.
pub open spec fn freed(crtcs: Seq<Crtc>, own: u32, conn: u32) -> Seq<Crtc> {
    Seq::new(
        crtcs.len(),
        |i: int|
            if crtcs[i].id == own || crtcs[i].connector == conn {
                Crtc { connector: 0, ..crtcs[i] }
            } else {
                crtcs[i]
            },
    )
}

/// Frees the controllers of a head that is gone.
pub fn free_crtcs(crtcs: &mut Vec<Crtc>, own: u32, conn: u32)
    ensures
        final(crtcs)@ == freed(old(crtcs)@, own, conn),
{
    let ghost all = crtcs@;
    let n: usize = crtcs.len();
    for i in 0..n
        invariant
            all == old(crtcs)@,
            n == all.len(),
            crtcs@.len() == n,
            forall|j: int| i <= j < n ==> crtcs@[j] == all[j],
            forall|j: int| 0 <= j < i ==> #[trigger] crtcs@[j] == freed(all, own, conn)[j],
    {
        if crtcs[i].id == own || crtcs[i].connector == conn {
            crtcs[i].connector = 0;
        }
    }
    assert(crtcs@ =~= freed(all, own, conn));
}

/// After a head is gone no controller is reserved for its connector.
pub proof fn gone_heads_hold_no_crtc(crtcs: Seq<Crtc>, own: u32, conn: u32, i: int)
    requires
        conn != 0,
        0 <= i < crtcs.len(),
    ensures
        freed(crtcs, own, conn)[i].connector != conn,
{
}

} // verus!
