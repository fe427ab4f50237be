//! Activation tokens: one app mints a token and hands it to another, which asks for
//! focus with it. Tokens are used once and age out.
use crate::list::{filter_members, find, retain};
use crate::output::{first_slot, first_slot_absent, first_slot_found, first_slot_is_lowest};
use crate::protocol::events::{refused, sent, told_invalid, Event, Out};
use crate::protocol::interfaces::Interface;
use crate::protocol::ObjectId;
use crate::text::{hex_padded, hex_padded_text, same_text};
use vstd::prelude::*;

verus! {

/// Nothing legitimate waits half a minute to focus.
pub const TOKEN_TTL_NS: u64 = 30_000_000_000;

pub const ERR_ALREADY_USED: u32 = 0;

pub struct ActivationGlobal;

impl ActivationGlobal {
    pub fn interface(&self) -> (r: Interface)
        ensures
            r is XdgActivationV1,
    {
        Interface::XdgActivationV1
    }

    pub fn version(&self) -> (r: u32)
        ensures
            r == 1,
    {
        1
    }

    pub fn bind(&self, client: u32, id: ObjectId, version: u32) -> (r: Activation)
        ensures
            r == (Activation { id, client, version }),
    {
        Activation { id, client, version }
    }
}

/// A token that was handed out.
pub struct Minted {
    pub token: String,
    /// when, in nanoseconds
    pub at: u64,
}

/// The tokens that may still be used.
pub struct Tokens {
    pub live: Vec<Minted>,
}

/// Still young enough.
pub open spec fn fresh_at(at: u64, now: u64) -> bool {
    (if now >= at { now - at } else { 0 }) <= TOKEN_TTL_NS
}

pub open spec fn fresh(now: u64) -> spec_fn(Minted) -> bool {
    |m: Minted| fresh_at(m.at, now)
}

pub open spec fn reads(token: Seq<char>) -> spec_fn(Minted) -> bool {
    |m: Minted| m.token@ == token
}

pub open spec fn token_text(uid: u64) -> Seq<char> {
    "carrot-"@ + hex_padded(uid as nat, 16)
}

/// No token twice.
pub open spec fn distinct_tokens(live: Seq<Minted>) -> bool {
    forall|i: int, j: int| 0 <= i < j < live.len() ==> (#[trigger] live[i]).token@ != (#[trigger] live[j]).token@
}

fn is_fresh(at: u64, now: u64) -> (r: bool)
    ensures
        r == fresh_at(at, now),
{
    now.saturating_sub(at) <= TOKEN_TTL_NS
}

impl Tokens {
    pub open spec fn wf(self) -> bool {
        distinct_tokens(self.live@)
    }

    pub fn new() -> (t: Tokens)
        ensures
            t.wf(),
            t.live@.len() == 0,
    {
        Tokens { live: Vec::new() }
    }

    /// Hands out a token made from a number that was never used before. Stale tokens
    /// are swept out.
    pub fn mint(&mut self, uid: u64, now: u64) -> (r: String)
        requires
            old(self).wf(),
        ensures
            final(self).wf(),
            r@ == token_text(uid),
            ({
                let kept = old(self).live@.filter(fresh(now));
                match first_slot(kept, reads(token_text(uid))) {
                    None => final(self).live@ == kept.push(Minted { token: r, at: now }),
                    Some(k) => final(self).live@ == kept.update(k, Minted { at: now, ..kept[k] }),
                }
            }),
    {
        let hex: String = hex_padded_text(uid, 16);
        let token: String = "carrot-".to_owned().concat(hex.as_str());
        let ghost before = self.live@;
        retain(
            &mut self.live,
            |m: &Minted| -> (b: bool) ensures b == fresh_at(m.at, now) { is_fresh(m.at, now) },
            Ghost(fresh(now)),
        );
        proof {
            filter_keeps_distinct(before, fresh(now));
        }
        match find(
            &self.live,
            |m: &Minted| -> (b: bool) ensures b == (m.token@ == token@) { same_text(m.token.as_str(), token.as_str()) },
            Ghost(reads(token@)),
        ) {
            Some(k) => {
                self.live[k].at = now;
            },
            None => {
                self.live.push(Minted { token: token.clone(), at: now });
            },
        }
        token
    }

    /// Uses a token up. `true` when it was known and still young enough.
    pub fn redeem(&mut self, token: &str, now: u64) -> (r: bool)
        requires
            old(self).wf(),
        ensures
            final(self).wf(),
            match first_slot(old(self).live@, reads(token@)) {
                None => !r && final(self).live@ == old(self).live@,
                Some(k) => r == fresh_at(old(self).live@[k].at, now) && final(self).live@ == old(self).live@.remove(k),
            },
    {
        match find(
            &self.live,
            |m: &Minted| -> (b: bool) ensures b == (m.token@ == token@) { same_text(m.token.as_str(), token) },
            Ghost(reads(token@)),
        ) {
            None => false,
            Some(k) => {
                let m: Minted = self.live.remove(k);
                is_fresh(m.at, now)
            },
        }
    }
}

proof fn filter_keeps_distinct(live: Seq<Minted>, p: spec_fn(Minted) -> bool)
    requires
        distinct_tokens(live),
    ensures
        distinct_tokens(live.filter(p)),
    decreases live.len(),
{
    reveal(Seq::filter);
    if live.len() > 0 {
        let rest = live.drop_last();
        assert(distinct_tokens(rest)) by {
            assert forall|i: int, j: int| 0 <= i < j < rest.len() implies (#[trigger] rest[i]).token@ != (
            #[trigger] rest[j]).token@ by {
                assert(live[i].token@ != live[j].token@);
            }
        }
        filter_keeps_distinct(rest, p);
        if p(live.last()) {
            let f = rest.filter(p);
            assert forall|i: int| 0 <= i < f.len() implies (#[trigger] f[i]).token@ != live.last().token@ by {
                assert(f.contains(f[i]));
                filter_members(rest, p, f[i]);
                let j = choose|j: int| 0 <= j < rest.len() && rest[j] == f[i];
                assert(live[j].token@ != live[live.len() - 1].token@);
            }
        }
    }
}

/// A token works once: whatever was redeemed is unknown afterwards.
pub proof fn tokens_work_once(live: Seq<Minted>, token: Seq<char>, k: int)
    requires
        distinct_tokens(live),
        first_slot(live, reads(token)) == Some(k),
    ensures
        first_slot(live.remove(k), reads(token)) is None,
{
    first_slot_is_lowest(live, reads(token));
    let left = live.remove(k);
    assert forall|j: int| 0 <= j < left.len() implies !reads(token)(#[trigger] left[j]) by {
        if j < k {
            assert(left[j] == live[j]);
        } else {
            assert(left[j] == live[j + 1]);
            assert(live[k].token@ != live[j + 1].token@);
        }
    }
    first_slot_absent(left, reads(token));
}

/// A fresh token is found again, and is honoured while it is young enough.
pub proof fn minted_tokens_are_honoured(kept: Seq<Minted>, m: Minted, now: u64)
    requires
        first_slot(kept, reads(m.token@)) is None,
        m.at <= now <= m.at + TOKEN_TTL_NS,
    ensures
        first_slot(kept.push(m), reads(m.token@)) == Some(kept.len() as int),
        fresh_at(kept.push(m)[kept.len() as int].at, now),
{
    first_slot_is_lowest(kept, reads(m.token@));
    let all = kept.push(m);
    assert forall|j: int| 0 <= j < kept.len() implies !reads(m.token@)(#[trigger] all[j]) by {
        assert(all[j] == kept[j]);
    }
    first_slot_found(all, reads(m.token@), kept.len() as int);
}

/// A token is honoured for half a minute after it was minted, and no longer.
pub proof fn tokens_age_out(at: u64, now: u64)
    requires
        now >= at,
    ensures
        fresh_at(at, now) <==> now - at <= TOKEN_TTL_NS,
{
}

#[derive(Clone, Copy, Debug, PartialEq, Eq, Structural)]
pub struct Activation {
    pub id: ObjectId,
    pub client: u32,
    pub version: u32,
}

/// The window above a surface, and the workspace it lives on.
#[derive(Clone, Copy, Debug, PartialEq, Eq, Structural)]
pub struct Target {
    pub window: u64,
    pub workspace: Option<usize>,
}

impl Activation {
    /// A token object for the client to fill in.
    pub fn get_activation_token(&self, id: ObjectId) -> (r: ActivationToken)
        ensures
            r == (ActivationToken { id, client: self.client, version: self.version, committed: false }),
    {
        ActivationToken { id, client: self.client, version: self.version, committed: false }
    }

    /// Asks for focus with a token. The result is what to focus, following it to its
    /// workspace; a token that is unknown or too old is used up and ignored. `found`
    /// says whether the id names a surface, `target` the window above it.
    pub fn activate(
        &self,
        out: &mut Out,
        tokens: &mut Tokens,
        token: &str,
        surface: ObjectId,
        found: bool,
        target: Option<Target>,
        now: u64,
    ) -> (r: Option<Target>)
        requires
            old(tokens).wf(),
        ensures
            final(tokens).wf(),
            !found ==> r is None && *final(tokens) == *old(tokens) && told_invalid(
                *old(out),
                *final(out),
                self.client,
                surface,
            ),
            found ==> {
                &&& final(out).sent@ == old(out).sent@
                &&& match first_slot(old(tokens).live@, reads(token@)) {
                    None => r is None && final(tokens).live@ == old(tokens).live@,
                    Some(k) => {
                        &&& r == (if fresh_at(old(tokens).live@[k].at, now) { target } else { None })
                        &&& final(tokens).live@ == old(tokens).live@.remove(k)
                    },
                }
            },
    {
        if !found {
            out.invalid_object(self.client, surface);
            return None;
        }
        if tokens.redeem(token, now) {
            target
        } else {
            None
        }
    }
}

#[derive(Clone, Copy, Debug, PartialEq, Eq, Structural)]
pub struct ActivationToken {
    pub id: ObjectId,
    pub client: u32,
    pub version: u32,
    pub committed: bool,
}

impl ActivationToken {
    /// Mints the token, once; any client may. `uid` is a number never used before.
    pub fn commit(&mut self, out: &mut Out, tokens: &mut Tokens, uid: u64, now: u64)
        requires
            old(tokens).wf(),
        ensures
            final(tokens).wf(),
            *final(self) == (ActivationToken { committed: true, ..*old(self) }),
            old(self).committed ==> *final(tokens) == *old(tokens) && refused(
                *old(out),
                *final(out),
                old(self).client,
                old(self).id,
                ERR_ALREADY_USED,
                "the token was already committed"@,
            ),
            !old(self).committed ==> {
                let kept = old(tokens).live@.filter(fresh(now));
                &&& final(out).sent@.len() == old(out).sent@.len() + 1
                &&& final(out).sent@.drop_last() == old(out).sent@
                &&& final(out).sent@.last().client == old(self).client
                &&& final(out).sent@.last().object == old(self).id
                &&& final(out).sent@.last().event matches Event::TokenDone { token } && token@ == token_text(uid)
                &&& match first_slot(kept, reads(token_text(uid))) {
                    None => final(tokens).live@.len() == kept.len() + 1 && final(tokens).live@.drop_last() == kept && final(tokens).live@.last().token@ == token_text(uid) && final(tokens).live@.last().at == now,
                    Some(k) => final(tokens).live@ == kept.update(k, Minted { at: now, ..kept[k] }),
                }
            },
    {
        if self.committed {
            out.protocol_error(self.client, self.id, ERR_ALREADY_USED, "the token was already committed");
            return;
        }
        self.committed = true;
        let token: String = tokens.mint(uid, now);
        proof {
            let kept = old(tokens).live@.filter(fresh(now));
            if first_slot(kept, reads(token_text(uid))) is None {
                assert(tokens.live@.drop_last() =~= kept);
            }
        }
        out.event(self.client, self.id, Event::TokenDone { token });
        assert(out.sent@.drop_last() =~= old(out).sent@);
    }
}

} // verus!
