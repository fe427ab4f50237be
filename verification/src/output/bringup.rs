//! Bringing a card up, following the seat's device events, and going dark.
use crate::output::cursor::{CursorPlane, HeadCursor};
use crate::output::topology::{head_set, heads, span};
use crate::output::{Display, Output};
use crate::rect::Rect;
use crate::text::{characters, dictionary_order, is_no_later, no_later, same_text};
use vstd::prelude::*;

verus! {

/// Whether a `/dev/dri` entry is a primary node: `card` and then digits only.
pub open spec fn card_node_spec(name: Seq<char>) -> bool {
    &&& crate::text::occurs_at(name, "card"@, 0)
    &&& forall|i: int| 4 <= i < name.len() ==> '0' <= #[trigger] name[i] <= '9'
}

pub fn is_card_node(name: &str) -> (r: bool)
    ensures
        r == card_node_spec(name@),
{
    if !crate::text::starts_with_text(name, "card") {
        return false;
    }
    let cs: Vec<char> = characters(name);
    let mut i: usize = 4;
    while i < cs.len()
        invariant
            cs@ == name@,
            4 <= i,
            forall|j: int| 4 <= j < i && j < cs@.len() ==> '0' <= #[trigger] name@[j] <= '9',
        decreases cs@.len() - i,
    {
        let c: char = cs[i];
        if !(c >= '0' && c <= '9') {
            assert(!('0' <= name@[i as int] <= '9'));
            return false;
        }
        i = i + 1;
    }
    true
}

pub open spec fn names_card() -> spec_fn(String) -> bool {
    |n: String| card_node_spec(n@)
}

/// In dictionary order.
pub open spec fn in_order(names: Seq<String>) -> bool {
    forall|i: int, j: int| 0 <= i < j < names.len() ==> no_later((#[trigger] names[i])@, (#[trigger] names[j])@)
}

fn file_in(names: &mut Vec<String>, name: String)
    requires
        in_order(old(names)@),
    ensures
        in_order(final(names)@),
        final(names)@.to_multiset() == old(names)@.to_multiset().insert(name),
{
    let mut p: usize = 0;
    while p < names.len() && is_no_later(names[p].as_str(), name.as_str())
        invariant
            p <= names@.len(),
            in_order(names@),
            names@ == old(names)@,
            forall|j: int| 0 <= j < p ==> no_later((#[trigger] names@[j])@, name@),
        decreases names@.len() - p,
    {
        p = p + 1;
    }
    let ghost before = names@;
    names.insert(p, name);
    proof {
        assert(names@ =~= before.insert(p as int, name));
        vstd::seq_lib::to_multiset_insert(before, p as int, name);
        assert forall|i: int, j: int| 0 <= i < j < names@.len() implies no_later(
            (#[trigger] names@[i])@,
            (#[trigger] names@[j])@,
        ) by {
            let last = before.len() as int;
            if i < p && j > p {
                assert(no_later(before[i]@, before[j - 1]@));
            } else if i > p {
                assert(no_later(before[i - 1]@, before[j - 1]@));
            } else if i == p {
                dictionary_order(before[p as int]@, name@, before[j - 1]@);
                dictionary_order(name@, before[p as int]@, before[j - 1]@);
                if j - 1 > p {
                    assert(no_later(before[p as int]@, before[j - 1]@));
                }
            } else if j < p {
                assert(no_later(before[i]@, before[j]@));
            }
        }
    }
}

/// The cards to try, in dictionary order.
pub fn card_nodes(entries: &Vec<String>) -> (r: Vec<String>)
    ensures
        in_order(r@),
        r@.to_multiset() == entries@.filter(names_card()).to_multiset(),
{
    let mut v: Vec<String> = Vec::new();
    proof {
        reveal(Seq::filter);
        assert(entries@.take(0).filter(names_card()) =~= Seq::<String>::empty());
        assert(v@ =~= Seq::<String>::empty());
    }
    for i in 0..entries.len()
        invariant
            in_order(v@),
            v@.to_multiset() == entries@.take(i as int).filter(names_card()).to_multiset(),
    {
        proof {
            reveal(Seq::filter);
            assert(entries@.take(i + 1).drop_last() =~= entries@.take(i as int));
        }
        if is_card_node(entries[i].as_str()) {
            let ghost front = entries@.take(i as int).filter(names_card());
            file_in(&mut v, entries[i].clone());
            proof {
                vstd::seq_lib::to_multiset_build(front, entries@[i as int]);
            }
        }
    }
    assert(entries@.take(entries@.len() as int) =~= entries@);
    v
}

/// The first dash of a sysfs connector entry such as `card1-DP-2`.
pub open spec fn is_first_dash(entry: Seq<char>, k: int) -> bool {
    &&& 0 <= k < entry.len()
    &&& entry[k] == '-'
    &&& forall|j: int| 0 <= j < k ==> #[trigger] entry[j] != '-'
}

/// The card part of a connector entry that belongs to another card than the
/// active one: the length of its card name. `None` for entries of the active
/// card and for entries that name no card connector.
pub fn foreign_card(entry: &str, active: &str) -> (r: Option<usize>)
    ensures
        match r {
            Some(k) => {
                &&& is_first_dash(entry@, k as int)
                &&& entry@.take(k as int) != active@
                &&& crate::text::occurs_at(entry@.take(k as int), "card"@, 0)
            },
            None => forall|k: int| #[trigger]
                is_first_dash(entry@, k) ==> entry@.take(k) == active@ || !crate::text::occurs_at(
                    entry@.take(k),
                    "card"@,
                    0,
                ),
        },
{
    let cs: Vec<char> = characters(entry);
    let mut k: usize = 0;
    while k < cs.len() && cs[k] != '-'
        invariant
            cs@ == entry@,
            k <= cs@.len(),
            forall|j: int| 0 <= j < k ==> #[trigger] entry@[j] != '-',
        decreases cs@.len() - k,
    {
        k = k + 1;
    }
    if k == cs.len() {
        return None;
    }
    assert(is_first_dash(entry@, k as int));
    assert forall|m: int| #[trigger] is_first_dash(entry@, m) implies m == k by {
        if m < k {
            assert(entry@[m] != '-');
        }
        if m > k {
            assert(entry@[k as int] != '-');
        }
    }
    let card: &str = entry.substring_char(0, k);
    assert(card@ =~= entry@.take(k as int));
    if same_text(card, active) || !crate::text::starts_with_text(card, "card") {
        return None;
    }
    Some(k)
}

/// A head that came up takes the next place in the row.
pub open spec fn placed_spec(outs: Seq<Output>, o: Output) -> Output {
    let moved = Output {
        pos: (span(outs, outs.len()) as i32, 0i32),
        ws: if outs.len() < 8 { outs.len() as usize } else { 8 },
        ..o
    };
    Output { usable: moved.rect_spec(), ..moved }
}

/// Adds a head to the right of the row; `x` is the row's width so far.
pub fn place_head(outs: &mut Vec<Output>, x: i32, o: Output) -> (r: i32)
    requires
        x == span(old(outs)@, old(outs)@.len()),
        o.width <= i32::MAX,
        o.height <= i32::MAX,
        x + o.width <= i32::MAX,
    ensures
        final(outs)@ == old(outs)@.push(placed_spec(old(outs)@, o)),
        r == span(final(outs)@, final(outs)@.len()),
{
    let mut o = o;
    let n: usize = outs.len();
    o.pos = (x, 0);
    o.ws = if n < 8 { n } else { 8 };
    let r: Rect = o.rect();
    o.usable = r;
    let w: i32 = o.width as i32;
    let ghost before = outs@;
    outs.push(o);
    proof {
        span_prefix(before, outs@, before.len());
    }
    x + w
}

pub proof fn span_prefix(a: Seq<Output>, b: Seq<Output>, n: nat)
    requires
        n <= a.len(),
        n <= b.len(),
        forall|i: int| 0 <= i < n ==> a[i] == b[i],
    ensures
        span(a, n) == span(b, n),
    decreases n,
{
    if n > 0 {
        span_prefix(a, b, (n - 1) as nat);
    }
}

/// Linear scanout is the display engine's worst case: with a second head the
/// secondaries are stepped down.
pub open spec fn cramped_spec(outs: Seq<Output>) -> bool {
    outs.len() > 1 && exists|i: int| 0 <= i < outs.len() && (#[trigger] outs[i]).dumb
}

pub fn cramped(outs: &Vec<Output>) -> (r: bool)
    ensures
        r == cramped_spec(outs@),
{
    if outs.len() <= 1 {
        return false;
    }
    for i in 0..outs.len()
        invariant
            forall|j: int| 0 <= j < i ==> !(#[trigger] outs@[j]).dumb,
            outs@.len() > 1,
    {
        if outs[i].dumb {
            return true;
        }
    }
    false
}

/// What the card said to the commit of all heads.
#[derive(Clone, Copy, Debug, PartialEq, Eq, Structural)]
pub enum CommitReply {
    Accepted,
    /// refused; `modeset` tells whether the commit itself was refused, with its errno
    Refused { modeset: bool, errno: i32 },
}

#[derive(Clone, Copy, Debug, PartialEq, Eq, Structural)]
pub enum BringUp {
    Lit,
    /// one head fewer: commit again
    Again,
    /// this card cannot be used
    NextCard,
}

pub const EINVAL: i32 = 22;

pub const ENOSPC: i32 = 28;

pub const ERANGE: i32 = 34;

/// The kernel refused the combination of heads, so a head fewer may fit.
pub open spec fn bandwidth_refusal(reply: CommitReply) -> bool {
    reply matches CommitReply::Refused { modeset, errno } && modeset && (errno == 22 || errno == 28 || errno
        == 34)
}

/// One round of the commit ladder: a head that cannot fit is dropped, newest first.
pub fn after_commit(outs: &mut Vec<Output>, reply: CommitReply) -> (r: BringUp)
    ensures
        reply is Accepted ==> r == (if old(outs)@.len() == 0 { BringUp::NextCard } else { BringUp::Lit })
            && final(outs)@ == old(outs)@,
        reply is Refused && !bandwidth_refusal(reply) ==> r == BringUp::NextCard && final(outs)@ == old(outs)@,
        bandwidth_refusal(reply) && old(outs)@.len() > 0 ==> r == BringUp::Again && final(outs)@
            == old(outs)@.drop_last(),
        bandwidth_refusal(reply) && old(outs)@.len() == 0 ==> r == BringUp::NextCard && final(outs)@
            == old(outs)@,
{
    match reply {
        CommitReply::Accepted => if outs.len() == 0 { BringUp::NextCard } else { BringUp::Lit },
        CommitReply::Refused { modeset, errno } => {
            if !(modeset && (errno == EINVAL || errno == ENOSPC || errno == ERANGE)) {
                return BringUp::NextCard;
            }
            match outs.pop() {
                Some(_) => BringUp::Again,
                None => BringUp::NextCard,
            }
        },
    }
}

pub open spec fn capped_len(n: nat) -> nat {
    if n < 9 { n } else { 9 }
}

/// A workspace per output up front, bound to it; at most nine.
pub open spec fn boot_bound(bound: Seq<usize>, n: nat) -> Seq<usize> {
    let m = capped_len(n);
    let len = if bound.len() < m { m } else { bound.len() };
    Seq::new(len, |k: int| if k < m { k as usize } else { bound[k] })
}

pub fn bind_workspaces(bound: &mut Vec<usize>, n: usize)
    ensures
        final(bound)@ == boot_bound(old(bound)@, n as nat),
{
    let m: usize = if n < 9 { n } else { 9 };
    let ghost had = bound@;
    while bound.len() < m
        invariant
            had.len() <= bound@.len(),
            had.len() < bound@.len() ==> bound@.len() <= m,
            forall|k: int| 0 <= k < had.len() ==> bound@[k] == had[k],
        decreases m - bound@.len(),
    {
        bound.push(0);
    }
    let len: usize = bound.len();
    for i in 0..m
        invariant
            len == bound@.len(),
            m <= len,
            had.len() <= len,
            had.len() < len ==> len == m,
            forall|k: int| 0 <= k < i ==> bound@[k] == k,
            forall|k: int| i <= k < had.len() ==> bound@[k] == had[k],
    {
        bound[i] = i;
    }
    assert(bound@ =~= boot_bound(had, n as nat));
}

/// Slots follow the row once the head set is final.
pub fn number_heads(outs: &mut Vec<Output>)
    ensures
        final(outs)@.len() == old(outs)@.len(),
        forall|i: int|
            0 <= i < old(outs)@.len() ==> final(outs)@[i] == (Output { index: i as usize, ..#[trigger] old(outs)@[i] }),
{
    let n: usize = outs.len();
    for i in 0..n
        invariant
            n == outs@.len(),
            n == old(outs)@.len(),
            forall|j: int| 0 <= j < i ==> outs@[j] == (Output { index: j as usize, ..#[trigger] old(outs)@[j] }),
            forall|j: int| i <= j < n ==> outs@[j] == old(outs)@[j],
    {
        assert(outs@[i as int] == old(outs)@[i as int]);
        outs[i].index = i;
    }
}

pub const XRGB8888: u32 = 0x3432_5258;

pub const ARGB8888: u32 = 0x3432_5241;

/// Format and modifier pairs offered to dmabuf clients: both formats with each
/// modifier the device samples, else both with the linear modifier.
pub open spec fn format_table(mods: Seq<u64>) -> Seq<(u32, u64)> {
    if mods.len() == 0 {
        seq![(XRGB8888, 0u64), (ARGB8888, 0u64)]
    } else {
        Seq::new(
            2 * mods.len(),
            |k: int| (if k % 2 == 0 { XRGB8888 } else { ARGB8888 }, mods[k / 2]),
        )
    }
}

pub fn dmabuf_formats(mods: &Vec<u64>) -> (r: Vec<(u32, u64)>)
    ensures
        r@ == format_table(mods@),
{
    let mut out: Vec<(u32, u64)> = Vec::new();
    for i in 0..mods.len()
        invariant
            out@.len() == 2 * i,
            forall|k: int|
                0 <= k < 2 * i ==> #[trigger] out@[k] == (
                    if k % 2 == 0 { XRGB8888 } else { ARGB8888 },
                    mods@[k / 2],
                ),
    {
        out.push((XRGB8888, mods[i]));
        out.push((ARGB8888, mods[i]));
    }
    if out.len() == 0 {
        out.push((XRGB8888, 0));
        out.push((ARGB8888, 0));
    }
    assert(out@ =~= format_table(mods@));
    out
}

/// What logind says about the card.
#[derive(Clone, Copy, Debug, PartialEq, Eq, Structural)]
pub enum DeviceEvent {
    Pause,
    Resume,
    Gone,
}

pub open spec fn paused_head() -> spec_fn(Output) -> Output {
    |o: Output| Output { paused: true, cursor: HeadCursor { rearm: false, ..o.cursor }, ..o }
}

pub open spec fn gone_head() -> spec_fn(Output) -> Output {
    |o: Output| Output { paused: true, ..o }
}

/// A head whose vt came back: an in-flight flip never completes, so it is
/// no longer waited for, and the plane shows again unless the cursor is composited or hidden.
pub open spec fn resumed_head(sw: bool) -> spec_fn(Output) -> Output {
    |o: Output|
        Output {
            paused: false,
            flip_pending: false,
            cursor: HeadCursor {
                locked: false,
                rearm: false,
                plane: match o.cursor.plane {
                    None => None,
                    Some(p) => Some(CursorPlane { enabled: !sw && !o.cursor.client_hidden, ..p }),
                },
                ..o.cursor
            },
            ..o
        }
}

pub open spec fn event_head(ev: DeviceEvent, sw: bool) -> spec_fn(Output) -> Output {
    match ev {
        DeviceEvent::Pause => paused_head(),
        DeviceEvent::Resume => resumed_head(sw),
        DeviceEvent::Gone => gone_head(),
    }
}

impl Display {
    /// Follows a device event on every head. Returns the head set to commit
    /// after a resume, and nothing otherwise: master is already gone then.
    pub fn on_device(&mut self, ev: DeviceEvent) -> (r: Option<Vec<(u32, u32)>>)
        ensures
            final(self).outputs@ == crate::output::cursor::each(
                old(self).outputs@,
                event_head(ev, old(self).sw),
            ),
            *final(self) == (Display { outputs: final(self).outputs, ..*old(self) }),
            r is Some <==> ev is Resume,
            r matches Some(hs) ==> hs@ == head_set(old(self).outputs@),
    {
        let n: usize = self.outputs.len();
        let sw: bool = self.sw;
        for i in 0..n
            invariant
                n == self.outputs@.len(),
                n == old(self).outputs@.len(),
                sw == old(self).sw,
                *self == (Display { outputs: self.outputs, ..*old(self) }),
                forall|j: int| 0 <= j < i ==> self.outputs@[j] == event_head(ev, sw)(old(self).outputs@[j]),
                forall|j: int| i <= j < n ==> self.outputs@[j] == old(self).outputs@[j],
        {
            match ev {
                DeviceEvent::Pause => {
                    self.outputs[i].paused = true;
                    self.outputs[i].cursor.rearm = false;
                },
                DeviceEvent::Resume => {
                    let mut c: HeadCursor = self.outputs[i].cursor;
                    c.locked = false;
                    c.rearm = false;
                    match c.plane {
                        None => {},
                        Some(p) => {
                            c.plane = Some(CursorPlane { enabled: !sw && !c.client_hidden, ..p });
                        },
                    }
                    self.outputs[i].cursor = c;
                    self.outputs[i].paused = false;
                    self.outputs[i].flip_pending = false;
                },
                DeviceEvent::Gone => {
                    self.outputs[i].paused = true;
                },
            }
        }
        assert(self.outputs@ =~= crate::output::cursor::each(old(self).outputs@, event_head(ev, sw)));
        match ev {
            DeviceEvent::Resume => Some(heads(&self.outputs)),
            _ => None,
        }
    }
}

/// A head that goes dark, or lights up again: a flip that was on its way then never
/// completes.
pub open spec fn dpms_head(on: bool) -> spec_fn(Output) -> Output {
    |o: Output| if on { Output { paused: false, flip_pending: false, ..o } } else { Output { paused: true, ..o } }
}

/// Screens dark or awake without touching the session. Returns the head set
/// to commit: empty to go dark, all heads to wake, nothing when already so.
pub fn dpms(d: &mut Display, on: bool) -> (r: Option<Vec<(u32, u32)>>)
    ensures
        r is Some <==> old(d).dpms_off == on,
        r is None ==> *final(d) == *old(d),
        r is Some ==> {
            &&& final(d).outputs@ == crate::output::cursor::each(
                old(d).outputs@,
                dpms_head(on),
            )
            &&& *final(d) == (Display { dpms_off: !on, outputs: final(d).outputs, ..*old(d) })
            &&& !on ==> (r->0)@.len() == 0
            &&& on ==> (r->0)@ == head_set(old(d).outputs@)
        },
{
    if d.dpms_off != on {
        return None;
    }
    let ghost f = dpms_head(on);
    d.dpms_off = !on;
    let n: usize = d.outputs.len();
    for i in 0..n
        invariant
            n == d.outputs@.len(),
            n == old(d).outputs@.len(),
            f == dpms_head(on),
            *d == (Display { dpms_off: !on, outputs: d.outputs, ..*old(d) }),
            forall|j: int| 0 <= j < i ==> d.outputs@[j] == f(old(d).outputs@[j]),
            forall|j: int| i <= j < n ==> d.outputs@[j] == old(d).outputs@[j],
    {
        if on {
            d.outputs[i].paused = false;
            d.outputs[i].flip_pending = false;
        } else {
            d.outputs[i].paused = true;
        }
    }
    assert(d.outputs@ =~= crate::output::cursor::each(old(d).outputs@, f));
    if on {
        Some(heads(&d.outputs))
    } else {
        let none: Vec<(u32, u32)> = Vec::new();
        Some(none)
    }
}

} // verus!
