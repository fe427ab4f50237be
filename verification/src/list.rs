//! Searching and thinning lists by a test.
use crate::output::{first_slot, first_slot_absent, first_slot_found};
use vstd::prelude::*;

verus! {

/// The first entry that passes a test; `p` says what the test decides.
pub(crate) fn find<T>(v: &Vec<T>, test: impl Fn(&T) -> bool, Ghost(p): Ghost<spec_fn(T) -> bool>) -> (r: Option<usize>)
    requires
        forall|x: T| #[trigger] call_requires(test, (&x,)),
        forall|x: T, b: bool| #[trigger] call_ensures(test, (&x,), b) ==> b == p(x),
    ensures
        match r {
            Some(k) => first_slot(v@, p) == Some(k as int) && k < v@.len() && p(v@[k as int]),
            None => first_slot(v@, p) is None && forall|j: int| 0 <= j < v@.len() ==> !p(#[trigger] v@[j]),
        },
{
    for i in 0..v.len()
        invariant
            forall|x: T| #[trigger] call_requires(test, (&x,)),
            forall|x: T, b: bool| #[trigger] call_ensures(test, (&x,), b) ==> b == p(x),
            forall|j: int| 0 <= j < i ==> !p(#[trigger] v@[j]),
    {
        if test(&v[i]) {
            proof {
                first_slot_found(v@, p, i as int);
            }
            return Some(i);
        }
    }
    proof {
        first_slot_absent(v@, p);
    }
    None
}

/// Drops the entries that fail a test, keeping the order of the rest.
pub(crate) fn retain<T>(v: &mut Vec<T>, test: impl Fn(&T) -> bool, Ghost(p): Ghost<spec_fn(T) -> bool>)
    requires
        forall|x: T| #[trigger] call_requires(test, (&x,)),
        forall|x: T, b: bool| #[trigger] call_ensures(test, (&x,), b) ==> b == p(x),
    ensures
        final(v)@ == old(v)@.filter(p),
{
    let ghost all = v@;
    let n: usize = v.len();
    let mut k: usize = 0;
    proof {
        reveal(Seq::filter);
        assert(all.take(0).filter(p) =~= Seq::<T>::empty());
        assert(v@ =~= all.take(0).filter(p) + all.skip(0));
    }
    for i in 0..n
        invariant
            n == all.len(),
            forall|x: T| #[trigger] call_requires(test, (&x,)),
            forall|x: T, b: bool| #[trigger] call_ensures(test, (&x,), b) ==> b == p(x),
            k == all.take(i as int).filter(p).len(),
            v@ == all.take(i as int).filter(p) + all.skip(i as int),
    {
        let ghost front = all.take(i as int).filter(p);
        let ghost before = v@;
        proof {
            reveal(Seq::filter);
            assert(all.take(i + 1).drop_last() =~= all.take(i as int));
            assert(v@[k as int] == all[i as int]);
        }
        if test(&v[k]) {
            k = k + 1;
            assert(before =~= front.push(all[i as int]) + all.skip(i + 1));
        } else {
            v.remove(k);
            assert(v@ =~= front + all.skip(i + 1));
        }
    }
    assert(all.take(n as int) =~= all);
    assert(v@ =~= all.filter(p));
}

/// Whether some entry passes a test.
pub(crate) fn any<T>(v: &Vec<T>, test: impl Fn(&T) -> bool, Ghost(p): Ghost<spec_fn(T) -> bool>) -> (r: bool)
    requires
        forall|x: T| #[trigger] call_requires(test, (&x,)),
        forall|x: T, b: bool| #[trigger] call_ensures(test, (&x,), b) ==> b == p(x),
    ensures
        r == exists|j: int| 0 <= j < v@.len() && p(#[trigger] v@[j]),
        r == (first_slot(v@, p) is Some),
{
    match find(v, test, Ghost(p)) {
        Some(k) => {
            assert(p(v@[k as int]));
            true
        },
        None => false,
    }
}

/// What a thinned list holds: the entries that passed, and no others.
pub proof fn filter_members<T>(s: Seq<T>, p: spec_fn(T) -> bool, x: T)
    ensures
        s.filter(p).contains(x) <==> s.contains(x) && p(x),
    decreases s.len(),
{
    reveal(Seq::filter);
    if s.len() > 0 {
        let rest = s.drop_last();
        filter_members(rest, p, x);
        assert(s =~= rest.push(s.last()));
        if s.contains(x) {
            let i = choose|i: int| 0 <= i < s.len() && s[i] == x;
            if i < rest.len() {
                assert(rest[i] == x);
            }
        }
        if rest.contains(x) {
            let i = choose|i: int| 0 <= i < rest.len() && rest[i] == x;
            assert(s[i] == x);
        }
        if p(s.last()) {
            let f = rest.filter(p);
            assert(s.filter(p) =~= f.push(s.last()));
            if f.contains(x) {
                let i = choose|i: int| 0 <= i < f.len() && f[i] == x;
                assert(s.filter(p)[i] == x);
            }
            if x == s.last() {
                assert(s.filter(p)[f.len() as int] == x);
                assert(s[s.len() - 1] == x);
            }
            if s.filter(p).contains(x) && x != s.last() {
                let i = choose|i: int| 0 <= i < s.filter(p).len() && s.filter(p)[i] == x;
                assert(f[i] == x);
            }
        }
    }
}

/// Thinning a list that has nothing to drop changes nothing.
pub proof fn filter_all<T>(s: Seq<T>, p: spec_fn(T) -> bool)
    requires
        forall|i: int| 0 <= i < s.len() ==> p(#[trigger] s[i]),
    ensures
        s.filter(p) == s,
    decreases s.len(),
{
    reveal(Seq::filter);
    if s.len() > 0 {
        assert forall|i: int| 0 <= i < s.drop_last().len() implies p(#[trigger] s.drop_last()[i]) by {
            assert(p(s[i]));
        }
        filter_all(s.drop_last(), p);
        assert(p(s[s.len() - 1]));
        assert(s.drop_last().push(s.last()) =~= s);
    }
}

} // verus!
