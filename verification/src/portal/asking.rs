//! How a portal client goes from a session to a stream.
use crate::dbus::{with_sig, with_u32};
use crate::output::{first_slot, first_slot_found, first_slot_is_lowest};
use crate::portal::{
    answered, asked_mode, at_path, distinct_paths, option_named, properties_spec, Refusal, Reply, Session, Sessions,
    CURSOR_EMBEDDED, CURSOR_HIDDEN,
};
use vstd::prelude::*;

verus! {

/// The session of a path: the first, where paths repeat.
pub open spec fn session_at(s: Sessions, path: Seq<char>, k: int) -> bool {
    &&& 0 <= k < s.list@.len()
    &&& s.list@[k].path@ == path
    &&& forall|j: int| 0 <= j < k ==> (#[trigger] s.list@[j]).path@ != path
}

proof fn session_found(s: Sessions, path: Seq<char>)
    ensures
        forall|k: int| #[trigger] session_at(s, path, k) ==> s.slot_spec(path) == Some(k),
        s.slot_spec(path) matches Some(k) ==> session_at(s, path, k),
        s.slot_spec(path) is None ==> forall|k: int| !session_at(s, path, k),
{
    first_slot_is_lowest(s.list@, at_path(path));
    assert forall|k: int| #[trigger] session_at(s, path, k) implies s.slot_spec(path) == Some(k) by {
        assert forall|j: int| 0 <= j < k implies !at_path(path)(#[trigger] s.list@[j]) by {}
        first_slot_found(s.list@, at_path(path), k);
    }
    if let Some(k) = s.slot_spec(path) {
        assert forall|j: int| 0 <= j < k implies (#[trigger] s.list@[j]).path@ != path by {
            assert(!at_path(path)(s.list@[j]));
        }
    }
}

/// A session starts with a hidden cursor, keeps the cursor mode that its sources are selected
/// with, and its stream shows the cursor just when that mode embeds it. It is starting from
/// then on. Other sessions are left alone.
pub proof fn sessions_start_as_they_were_set_up(
    a: Sessions,
    b: Sessions,
    c: Sessions,
    d: Sessions,
    path: String,
    none: Seq<(String, u32)>,
    opts: Seq<(String, u32)>,
    r0: Reply,
    r1: Reply,
    r2: Reply,
    m: int,
    other: int,
)
    requires
        a.wf(),
        answered(a, b, "CreateSession"@, path, none, r0),
        answered(b, c, "SelectSources"@, path, opts, r1),
        answered(c, d, "Start"@, path, none, r2),
        0 <= m < opts.len() ==> opts[m].0@ == "cursor_mode"@,
        forall|j: int| 0 <= j < m && j < opts.len() ==> (#[trigger] opts[j]).0@ != "cursor_mode"@,
        m >= 0,
    ensures
        r0 is Body && r1 is Body,
        m < opts.len() ==> r2 == (Reply::Start { cursor: opts[m].1 == CURSOR_EMBEDDED }),
        m >= opts.len() ==> r2 == (Reply::Start { cursor: false }),
        exists|k: int| #[trigger] session_at(d, path@, k) && d.list@[k].starting,
        0 <= other < a.list@.len() && a.list@[other].path@ != path@ ==> d.list@[other] == a.list@[other],
{
    reveal_strlit("CreateSession");
    reveal_strlit("SelectSources");
    reveal_strlit("Start");
    assert("SelectSources"@.len() == 13);
    assert("CreateSession"@[0] == 'C');
    assert("SelectSources"@[0] == 'S');
    assert("Start"@.len() == 5);
    session_found(a, path@);
    session_found(b, path@);
    session_found(c, path@);
    session_found(d, path@);
    mode_found(opts, m);
    let k = match a.slot_spec(path@) {
        Some(k) => k,
        None => a.list@.len() as int,
    };
    if a.slot_spec(path@) is None {
        first_slot_is_lowest(a.list@, at_path(path@));
        assert forall|j: int| 0 <= j < k implies (#[trigger] b.list@[j]).path@ != path@ by {
            assert(b.list@[j] == a.list@[j]);
            assert(!at_path(path@)(a.list@[j]));
        }
    } else {
        assert forall|j: int| 0 <= j < k implies (#[trigger] b.list@[j]).path@ != path@ by {
            assert(a.list@[j].path@ != path@);
        }
    }
    assert(session_at(b, path@, k));
    assert forall|j: int| 0 <= j < k implies (#[trigger] c.list@[j]).path@ != path@ by {
        assert(b.list@[j].path@ != path@);
    }
    assert(session_at(c, path@, k));
    assert forall|j: int| 0 <= j < k implies (#[trigger] d.list@[j]).path@ != path@ by {
        assert(c.list@[j].path@ != path@);
    }
    assert(session_at(d, path@, k));
}

proof fn mode_found(opts: Seq<(String, u32)>, m: int)
    requires
        0 <= m,
        0 <= m < opts.len() ==> opts[m].0@ == "cursor_mode"@,
        forall|j: int| 0 <= j < m && j < opts.len() ==> (#[trigger] opts[j]).0@ != "cursor_mode"@,
    ensures
        m < opts.len() ==> asked_mode(opts) == Some(opts[m].1),
        m >= opts.len() ==> asked_mode(opts) is None,
{
    let p = option_named("cursor_mode"@);
    first_slot_is_lowest(opts, p);
    if m < opts.len() {
        assert forall|j: int| 0 <= j < m implies !p(#[trigger] opts[j]) by {}
        first_slot_found(opts, p, m);
    } else {
        assert forall|j: int| 0 <= j < opts.len() implies !p(#[trigger] opts[j]) by {}
    }
}

/// Without a session its sources cannot be selected, and it cannot start; a method that is
/// none of the interface's is refused. Nothing changes then.
pub proof fn unknown_sessions_are_refused(
    a: Sessions,
    b: Sessions,
    member: Seq<char>,
    path: String,
    opts: Seq<(String, u32)>,
    r: Reply,
)
    requires
        answered(a, b, member, path, opts, r),
        forall|j: int| 0 <= j < a.list@.len() ==> (#[trigger] a.list@[j]).path@ != path@,
        member != "CreateSession"@,
    ensures
        b.list@ == a.list@,
        member == "SelectSources"@ || member == "Start"@ ==> r == Reply::Refuse(Refusal::NoSession),
        member == "OpenPipeWireRemote"@ ==> r is OpenRemote,
        member != "SelectSources"@ && member != "Start"@ && member != "OpenPipeWireRemote"@ ==> r == Reply::Refuse(
            Refusal::UnknownMethod,
        ),
{
    session_found(a, path@);
    if let Some(k) = a.slot_spec(path@) {
        assert(session_at(a, path@, k));
    }
    reveal_strlit("SelectSources");
    reveal_strlit("Start");
    reveal_strlit("OpenPipeWireRemote");
    assert("SelectSources"@.len() == 13);
    assert("Start"@.len() == 5);
    assert("OpenPipeWireRemote"@.len() == 18);
}

/// The portal has version two, offers monitors, and can hide the cursor or embed it; a
/// property it does not know answers as zero, another interface is refused.
pub proof fn properties_are_answered(iface: Seq<char>, prop: Seq<char>, member: Seq<char>)
    ensures
        ({
            let word = |v: u32| with_u32(with_sig(Seq::empty(), "u"@), v);
            let ours = iface == "org.freedesktop.impl.portal.ScreenCast"@;
            let r = properties_spec("Get"@, iface, prop);
            &&& !ours ==> r == Err::<Seq<u8>, Refusal>(Refusal::UnknownInterface)
            &&& ours && prop == "version"@ ==> r == Ok::<Seq<u8>, Refusal>(word(2))
            &&& ours && prop == "AvailableSourceTypes"@ ==> r == Ok::<Seq<u8>, Refusal>(word(1))
            &&& ours && prop == "AvailableCursorModes"@ ==> r == Ok::<Seq<u8>, Refusal>(word(3))
            &&& ours && prop != "version"@ && prop != "AvailableSourceTypes"@ && prop != "AvailableCursorModes"@ ==> r == Ok::<
                Seq<u8>,
                Refusal,
            >(word(0))
            &&& member != "Get"@ && member != "GetAll"@ ==> properties_spec(member, iface, prop) == Err::<Seq<u8>, Refusal>(
                Refusal::UnknownMethod,
            )
            &&& properties_spec("GetAll"@, iface, prop) is Ok
        }),
{
    reveal_strlit("version");
    reveal_strlit("AvailableSourceTypes");
    reveal_strlit("AvailableCursorModes");
    reveal_strlit("Get");
    reveal_strlit("GetAll");
    assert("version"@.len() == 7);
    assert("AvailableSourceTypes"@[9] == 'S');
    assert("AvailableCursorModes"@[9] == 'C');
    assert("Get"@.len() == 3);
    assert("GetAll"@.len() == 6);
    assert("AvailableSourceTypes"@.len() == 20);
    assert("AvailableCursorModes"@.len() == 20);
}

} // verus!
