//! The xdg-desktop-portal backend: sessions, properties, and what each method
//! call is answered.

pub mod asking;
pub mod cast;
pub mod glass;

use crate::dbus::{
    aligned, array_at, closed_array, opened, with_empty_array, with_i32, with_sig, with_str, with_u32,
    ArrayMark, MsgBuilder,
};
use crate::output::{first_slot, first_slot_absent, first_slot_found, first_slot_is_lowest};
use crate::pipewire::PwError;
use crate::portal::cast::{close_session, of_other_session, Cast};
use crate::text::same_text;
use vstd::prelude::*;

verus! {

pub const SOURCE_MONITOR: u32 = 1;

pub const CURSOR_HIDDEN: u32 = 1;

pub const CURSOR_EMBEDDED: u32 = 2;

pub const VERSION: u32 = 2;

/// The portal's response code for a session that ended.
pub const R_ENDED: u32 = 2;

/// A code and no results.
pub open spec fn response_body(code: u32) -> Seq<u8> {
    with_empty_array(with_u32(Seq::empty(), code), 8)
}

/// The body of an answer that carries only a code.
pub fn reply_response(code: u32) -> (r: Vec<u8>)
    ensures
        r@ == response_body(code),
{
    let mut b: MsgBuilder = MsgBuilder::new();
    b.put_u32(code);
    let m: ArrayMark = b.open_array(8);
    b.close_array(m);
    b.buf
}

/// The body of a late answer, addressed by serial once the call has returned: the
/// same code without results.
pub fn response_to(code: u32) -> (r: Vec<u8>)
    ensures
        r@ == response_body(code),
{
    reply_response(code)
}

/// The value of a screencast property.
pub open spec fn prop_value(prop: Seq<char>) -> Option<u32> {
    if prop == "version"@ {
        Some(2)
    } else if prop == "AvailableSourceTypes"@ {
        Some(1)
    } else if prop == "AvailableCursorModes"@ {
        Some(3)
    } else {
        None
    }
}

pub open spec fn with_prop(s: Seq<u8>, prop: Seq<char>) -> Seq<u8> {
    match prop_value(prop) {
        Some(v) => with_u32(with_sig(s, "u"@), v),
        None => s,
    }
}

proof fn sig_short()
    ensures
        vstd::utf8::encode_utf8("u"@).len() == 1,
{
    reveal_strlit("u");
    crate::pipewire::ascii_len("u"@);
}

/// Puts a property as a variant; an unknown one puts nothing.
pub fn prop_variant(b: &mut MsgBuilder, prop: &str) -> (r: bool)
    ensures
        r == (prop_value(prop@) is Some),
        final(b).buf@ == with_prop(old(b).buf@, prop@),
        old(b).buf@.len() <= final(b).buf@.len() <= old(b).buf@.len() + 10,
{
    let v: u32 = if same_text(prop, "version") {
        VERSION
    } else if same_text(prop, "AvailableSourceTypes") {
        SOURCE_MONITOR
    } else if same_text(prop, "AvailableCursorModes") {
        CURSOR_HIDDEN + CURSOR_EMBEDDED
    } else {
        return false;
    };
    proof {
        sig_short();
    }
    b.put_signature("u");
    b.put_u32(v);
    true
}

/// Why a call is refused.
#[derive(Clone, Copy, Debug, PartialEq, Eq, Structural)]
pub enum Refusal {
    UnknownInterface,
    UnknownMethod,
    NoSession,
}

impl Refusal {
    pub open spec fn name_spec(self) -> Seq<char> {
        match self {
            Refusal::UnknownInterface => "org.freedesktop.DBus.Error.UnknownInterface"@,
            Refusal::UnknownMethod => "org.freedesktop.DBus.Error.UnknownMethod"@,
            Refusal::NoSession => "org.freedesktop.DBus.Error.Failed"@,
        }
    }

    pub open spec fn text_spec(self) -> Seq<char> {
        match self {
            Refusal::UnknownInterface => "only screencast here"@,
            Refusal::UnknownMethod => "no such method"@,
            Refusal::NoSession => "no such session"@,
        }
    }

    /// The D-Bus error name.
    pub fn name(&self) -> (r: &'static str)
        ensures
            r@ == self.name_spec(),
    {
        match self {
            Refusal::UnknownInterface => "org.freedesktop.DBus.Error.UnknownInterface",
            Refusal::UnknownMethod => "org.freedesktop.DBus.Error.UnknownMethod",
            Refusal::NoSession => "org.freedesktop.DBus.Error.Failed",
        }
    }

    /// The error's text.
    pub fn text(&self) -> (r: &'static str)
        ensures
            r@ == self.text_spec(),
    {
        match self {
            Refusal::UnknownInterface => "only screencast here",
            Refusal::UnknownMethod => "no such method",
            Refusal::NoSession => "no such session",
        }
    }
}

/// A dictionary entry of the property table.
pub open spec fn with_entry(s: Seq<u8>, prop: Seq<char>) -> Seq<u8> {
    with_prop(with_str(aligned(s, 8), prop), prop)
}

/// All properties, in order.
pub open spec fn all_props() -> Seq<u8> {
    let s = opened(Seq::empty(), 8);
    closed_array(
        with_entry(with_entry(with_entry(s, "version"@), "AvailableSourceTypes"@), "AvailableCursorModes"@),
        array_at(Seq::empty()),
        s.len(),
    )
}

fn put_entry(b: &mut MsgBuilder, prop: &str)
    requires
        vstd::utf8::is_ascii_chars(prop@),
        prop@.len() <= 64,
    ensures
        final(b).buf@ == with_entry(old(b).buf@, prop@),
        old(b).buf@.len() <= final(b).buf@.len() <= old(b).buf@.len() + 128,
{
    proof {
        crate::pipewire::ascii_len(prop@);
        sig_short();
    }
    b.align(8);
    b.put_str(prop);
    prop_variant(b, prop);
}

/// One property as an answer. An unknown one answers as zero, which counts as
/// absent.
pub open spec fn one_prop(prop: Seq<char>) -> Seq<u8> {
    with_u32(
        with_sig(Seq::empty(), "u"@),
        match prop_value(prop) {
            Some(v) => v,
            None => 0,
        },
    )
}

/// The answer to a call on the properties interface: one property, all of them,
/// or a refusal.
pub open spec fn properties_spec(member: Seq<char>, iface: Seq<char>, prop: Seq<char>) -> Result<Seq<u8>, Refusal> {
    if member == "Get"@ {
        if iface != "org.freedesktop.impl.portal.ScreenCast"@ {
            Err(Refusal::UnknownInterface)
        } else {
            Ok(one_prop(prop))
        }
    } else if member == "GetAll"@ {
        Ok(all_props())
    } else {
        Err(Refusal::UnknownMethod)
    }
}

pub fn serve_properties(member: &str, iface: &str, prop: &str) -> (r: Result<Vec<u8>, Refusal>)
    ensures
        match properties_spec(member@, iface@, prop@) {
            Ok(body) => r matches Ok(b) && b@ == body,
            Err(e) => r == Err::<Vec<u8>, Refusal>(e),
        },
{
    if same_text(member, "Get") {
        if !same_text(iface, "org.freedesktop.impl.portal.ScreenCast") {
            return Err(Refusal::UnknownInterface);
        }
        let mut b: MsgBuilder = MsgBuilder::new();
        if !prop_variant(&mut b, prop) {
            proof {
                sig_short();
            }
            b.put_signature("u");
            b.put_u32(0);
        }
        return Ok(b.buf);
    }
    if same_text(member, "GetAll") {
        proof {
            reveal_strlit("version");
            reveal_strlit("AvailableSourceTypes");
            reveal_strlit("AvailableCursorModes");
        }
        let mut b: MsgBuilder = MsgBuilder::new();
        let m: ArrayMark = b.open_array(8);
        put_entry(&mut b, "version");
        put_entry(&mut b, "AvailableSourceTypes");
        put_entry(&mut b, "AvailableCursorModes");
        b.close_array(m);
        return Ok(b.buf);
    }
    Err(Refusal::UnknownMethod)
}

/// One portal session.
pub struct Session {
    pub path: String,
    pub cursor_mode: u32,
    /// a cast is being set up for it
    pub starting: bool,
}

pub struct Sessions {
    pub list: Vec<Session>,
}

pub open spec fn at_path(path: Seq<char>) -> spec_fn(Session) -> bool {
    |s: Session| s.path@ == path
}

/// No path twice.
pub open spec fn distinct_paths(list: Seq<Session>) -> bool {
    forall|i: int, j: int|
        0 <= i < j < list.len() ==> (#[trigger] list[i]).path@ != (#[trigger] list[j]).path@
}

/// What a screencast call asks for.
pub enum Reply {
    /// answer with this body, of signature `ua{sv}`
    Body(Vec<u8>),
    Refuse(Refusal),
    /// set a cast up; its outcome is the answer
    Start { cursor: bool },
    /// open a connection to the daemon and hand it over
    OpenRemote,
}

/// The answer to a new session.
pub open spec fn created_body() -> Seq<u8> {
    let s = with_u32(Seq::empty(), 0);
    let o = opened(s, 8);
    closed_array(
        with_str(with_sig(with_str(aligned(o, 8), "session_id"@), "s"@), "carrot"@),
        array_at(s),
        o.len(),
    )
}

fn created_reply() -> (r: Vec<u8>)
    ensures
        r@ == created_body(),
{
    proof {
        reveal_strlit("session_id");
        reveal_strlit("s");
        reveal_strlit("carrot");
        crate::pipewire::ascii_len("session_id"@);
        crate::pipewire::ascii_len("s"@);
        crate::pipewire::ascii_len("carrot"@);
    }
    let mut b: MsgBuilder = MsgBuilder::new();
    b.put_u32(0);
    let m: ArrayMark = b.open_array(8);
    b.align(8);
    b.put_str("session_id");
    b.put_signature("s");
    b.put_str("carrot");
    b.close_array(m);
    b.buf
}

pub open spec fn option_named(key: Seq<char>) -> spec_fn((String, u32)) -> bool {
    |o: (String, u32)| o.0@ == key
}

/// The cursor mode among the options, if one is given.
pub open spec fn asked_mode(opts: Seq<(String, u32)>) -> Option<u32> {
    match first_slot(opts, option_named("cursor_mode"@)) {
        Some(k) => Some(opts[k].1),
        None => None,
    }
}

fn find_mode(opts: &Vec<(String, u32)>) -> (r: Option<u32>)
    ensures
        r == asked_mode(opts@),
{
    for i in 0..opts.len()
        invariant
            forall|j: int| 0 <= j < i ==> !option_named("cursor_mode"@)(#[trigger] opts@[j]),
    {
        if same_text(opts[i].0.as_str(), "cursor_mode") {
            proof {
                first_slot_found(opts@, option_named("cursor_mode"@), i as int);
            }
            return Some(opts[i].1);
        }
    }
    proof {
        first_slot_absent(opts@, option_named("cursor_mode"@));
    }
    None
}

/// What a call on the screencast interface is answered, and what becomes of the sessions.
pub open spec fn answered(
    a: Sessions,
    b: Sessions,
    member: Seq<char>,
    session: String,
    opts: Seq<(String, u32)>,
    r: Reply,
) -> bool {
    let slot = a.slot_spec(session@);
    if member == "CreateSession"@ {
        &&& r matches Reply::Body(w) && w@ == created_body()
        &&& match slot {
            None => b.list@ == a.list@.push(
                Session { path: session, cursor_mode: CURSOR_HIDDEN, starting: false },
            ),
            Some(k) => b.list@ == a.list@.update(
                k,
                Session { cursor_mode: CURSOR_HIDDEN, starting: false, ..a.list@[k] },
            ),
        }
    } else if member == "SelectSources"@ {
        match slot {
            None => r == Reply::Refuse(Refusal::NoSession) && b.list@ == a.list@,
            Some(k) => {
                &&& r matches Reply::Body(w) && w@ == response_body(0)
                &&& b.list@ == match asked_mode(opts) {
                    None => a.list@,
                    Some(m) => a.list@.update(
                        k,
                        Session { cursor_mode: m, ..a.list@[k] },
                    ),
                }
            },
        }
    } else if member == "Start"@ {
        match slot {
            None => r == Reply::Refuse(Refusal::NoSession) && b.list@ == a.list@,
            Some(k) => {
                &&& r == (Reply::Start { cursor: a.list@[k].cursor_mode == CURSOR_EMBEDDED })
                &&& b.list@ == a.list@.update(
                    k,
                    Session { starting: true, ..a.list@[k] },
                )
            },
        }
    } else {
        &&& b.list@ == a.list@
        &&& r == (if member == "OpenPipeWireRemote"@ {
            Reply::OpenRemote
        } else {
            Reply::Refuse(Refusal::UnknownMethod)
        })
    }
}

impl Sessions {
    pub open spec fn wf(self) -> bool {
        distinct_paths(self.list@)
    }

    pub open spec fn slot_spec(self, path: Seq<char>) -> Option<int> {
        first_slot(self.list@, at_path(path))
    }

    pub fn new() -> (s: Sessions)
        ensures
            s.wf(),
            s.list@.len() == 0,
    {
        Sessions { list: Vec::new() }
    }

    fn slot(&self, path: &str) -> (r: Option<usize>)
        ensures
            match r {
                Some(k) => self.slot_spec(path@) == Some(k as int) && k < self.list@.len() && self.list@[k as int].path@
                    == path@,
                None => self.slot_spec(path@) is None,
            },
    {
        for i in 0..self.list.len()
            invariant
                forall|j: int| 0 <= j < i ==> !at_path(path@)(#[trigger] self.list@[j]),
        {
            if same_text(self.list[i].path.as_str(), path) {
                proof {
                    first_slot_found(self.list@, at_path(path@), i as int);
                }
                return Some(i);
            }
        }
        proof {
            first_slot_absent(self.list@, at_path(path@));
        }
        None
    }

    /// Registers a session, or resets one that exists: no pointer in the frames
    /// until asked for.
    pub fn create(&mut self, path: String)
        requires
            old(self).wf(),
        ensures
            final(self).wf(),
            match old(self).slot_spec(path@) {
                None => final(self).list@ == old(self).list@.push(
                    Session { path, cursor_mode: CURSOR_HIDDEN, starting: false },
                ),
                Some(k) => final(self).list@ == old(self).list@.update(
                    k,
                    Session { cursor_mode: CURSOR_HIDDEN, starting: false, ..old(self).list@[k] },
                ),
            },
    {
        match self.slot(path.as_str()) {
            Some(k) => {
                self.list[k].cursor_mode = CURSOR_HIDDEN;
                self.list[k].starting = false;
            },
            None => {
                proof {
                    first_slot_is_lowest(self.list@, at_path(path@));
                    assert forall|i: int| 0 <= i < self.list@.len() implies (#[trigger] self.list@[i]).path@
                        != path@ by {
                        assert(!at_path(path@)(self.list@[i]));
                    }
                }
                self.list.push(Session { path, cursor_mode: CURSOR_HIDDEN, starting: false });
            },
        }
    }

    /// Forgets a session.
    pub fn close(&mut self, path: &str)
        requires
            old(self).wf(),
        ensures
            final(self).wf(),
            match old(self).slot_spec(path@) {
                None => final(self).list@ == old(self).list@,
                Some(k) => final(self).list@ == old(self).list@.remove(k),
            },
    {
        match self.slot(path) {
            Some(k) => {
                self.list.remove(k);
            },
            None => {},
        }
    }

    /// One call on the screencast interface. `session` is the session path the
    /// call names, `opts` the numeric options it carries.
    pub fn serve_screencast(&mut self, member: &str, session: String, opts: &Vec<(String, u32)>) -> (r: Reply)
        requires
            old(self).wf(),
        ensures
            final(self).wf(),
            answered(*old(self), *final(self), member@, session, opts@, r),
    {
        if same_text(member, "CreateSession") {
            self.create(session);
            return Reply::Body(created_reply());
        }
        if same_text(member, "SelectSources") {
            return match self.slot(session.as_str()) {
                None => Reply::Refuse(Refusal::NoSession),
                Some(k) => {
                    match find_mode(opts) {
                        None => {},
                        Some(m) => {
                            self.list[k].cursor_mode = m;
                        },
                    }
                    Reply::Body(reply_response(0))
                },
            };
        }
        if same_text(member, "Start") {
            return match self.slot(session.as_str()) {
                None => Reply::Refuse(Refusal::NoSession),
                Some(k) => {
                    let cursor: bool = self.list[k].cursor_mode == CURSOR_EMBEDDED;
                    self.list[k].starting = true;
                    Reply::Start { cursor }
                },
            };
        }
        if same_text(member, "OpenPipeWireRemote") {
            Reply::OpenRemote
        } else {
            Reply::Refuse(Refusal::UnknownMethod)
        }
    }
}

/// One call on a session object: closing it takes its casts along and answers
/// with an empty body.
pub fn serve_session(sessions: &mut Sessions, casts: &mut Vec<Cast>, member: &str, path: &str) -> (r: Result<
    (),
    Refusal,
>)
    requires
        old(sessions).wf(),
    ensures
        final(sessions).wf(),
        r == (if member@ == "Close"@ { Ok::<(), Refusal>(()) } else { Err(Refusal::UnknownMethod) }),
        member@ == "Close"@ ==> {
            &&& final(casts)@ == old(casts)@.filter(of_other_session(path@))
            &&& final(sessions).list@ == match old(sessions).slot_spec(path@) {
                None => old(sessions).list@,
                Some(k) => old(sessions).list@.remove(k),
            }
        },
        member@ != "Close"@ ==> final(casts)@ == old(casts)@ && final(sessions).list@ == old(sessions).list@,
{
    if !same_text(member, "Close") {
        return Err(Refusal::UnknownMethod);
    }
    sessions.close(path);
    close_session(casts, path);
    Ok(())
}

/// One call on a request object: only closing is known, and answers with an
/// empty body.
pub fn serve_request(member: &str) -> (r: Result<(), Refusal>)
    ensures
        r == (if member@ == "Close"@ { Ok::<(), Refusal>(()) } else { Err(Refusal::UnknownMethod) }),
{
    if same_text(member, "Close") {
        Ok(())
    } else {
        Err(Refusal::UnknownMethod)
    }
}

/// The body that hands over a daemon connection: the index of its descriptor.
pub fn remote_body() -> (r: Vec<u8>)
    ensures
        r@ == with_u32(Seq::empty(), 0),
{
    let mut b: MsgBuilder = MsgBuilder::new();
    b.put_u32(0);
    b.buf
}

/// The answer to a start, once the cast is up or has failed.
pub fn start_reply(outcome: &Result<Cast, PwError>) -> (r: Vec<u8>)
    ensures
        r@ == match outcome {
            Ok(c) => streams_body(*c),
            Err(_) => response_body(R_ENDED),
        },
{
    match outcome {
        Ok(c) => put_streams(c),
        Err(_) => response_to(R_ENDED),
    }
}

/// A closed session is unknown from then on: no slot holds its path.
pub proof fn closed_sessions_are_gone(list: Seq<Session>, path: Seq<char>, k: int)
    requires
        distinct_paths(list),
        first_slot(list, at_path(path)) == Some(k),
    ensures
        first_slot(list.remove(k), at_path(path)) is None,
{
    first_slot_is_lowest(list, at_path(path));
    let left = list.remove(k);
    assert forall|j: int| 0 <= j < left.len() implies !at_path(path)(#[trigger] left[j]) by {
        if j < k {
            assert(left[j] == list[j]);
        } else {
            assert(left[j] == list[j + 1]);
            assert(list[k].path@ != list[j + 1].path@);
        }
    }
    first_slot_absent(left, at_path(path));
}

/// A pair of coordinates as a dictionary entry.
pub open spec fn with_pair_entry(s: Seq<u8>, key: Seq<char>, x: i32, y: i32) -> Seq<u8> {
    with_i32(with_i32(aligned(with_sig(with_str(aligned(s, 8), key), "(ii)"@), 8), x), y)
}

/// The properties of a stream: size, position, source type.
pub open spec fn with_stream_props(s: Seq<u8>, c: Cast) -> Seq<u8> {
    let o = opened(s, 8);
    let sized = with_pair_entry(o, "size"@, crate::bytes::signed_of(c.width), crate::bytes::signed_of(c.height));
    let placed = with_pair_entry(sized, "position"@, c.pos.0, c.pos.1);
    let typed = with_u32(with_sig(with_str(aligned(placed, 8), "source_type"@), "u"@), SOURCE_MONITOR);
    closed_array(typed, array_at(s), o.len())
}

/// The list of one stream.
pub open spec fn with_stream(s: Seq<u8>, c: Cast) -> Seq<u8> {
    let o = opened(s, 8);
    closed_array(with_stream_props(with_u32(aligned(o, 8), c.node_id), c), array_at(s), o.len())
}

/// The answer to a started cast: code zero and its stream.
pub open spec fn streams_body(c: Cast) -> Seq<u8> {
    let s = with_u32(Seq::empty(), 0);
    let o = opened(s, 8);
    closed_array(
        with_stream(with_sig(with_str(aligned(o, 8), "streams"@), "a(ua{sv})"@), c),
        array_at(s),
        o.len(),
    )
}

fn put_pair_entry(b: &mut MsgBuilder, key: &str, x: i32, y: i32)
    requires
        vstd::utf8::is_ascii_chars(key@),
        key@.len() <= 64,
    ensures
        final(b).buf@ == with_pair_entry(old(b).buf@, key@, x, y),
        old(b).buf@.len() <= final(b).buf@.len() <= old(b).buf@.len() + 160,
{
    proof {
        reveal_strlit("(ii)");
        crate::pipewire::ascii_len("(ii)"@);
        crate::pipewire::ascii_len(key@);
    }
    b.align(8);
    b.put_str(key);
    b.put_signature("(ii)");
    b.align(8);
    b.put_i32(x);
    b.put_i32(y);
}

fn put_stream_props(b: &mut MsgBuilder, c: &Cast)
    ensures
        final(b).buf@ == with_stream_props(old(b).buf@, *c),
        old(b).buf@.len() <= final(b).buf@.len() <= old(b).buf@.len() + 512,
{
    proof {
        reveal_strlit("size");
        reveal_strlit("position");
        reveal_strlit("source_type");
        crate::pipewire::ascii_len("source_type"@);
        sig_short();
    }
    let m: ArrayMark = b.open_array(8);
    put_pair_entry(b, "size", crate::bytes::from_bits(c.width), crate::bytes::from_bits(c.height));
    put_pair_entry(b, "position", c.pos.0, c.pos.1);
    b.align(8);
    b.put_str("source_type");
    b.put_signature("u");
    b.put_u32(SOURCE_MONITOR);
    b.close_array(m);
}

/// The streams result the app receives: node id plus geometry.
pub fn put_streams(c: &Cast) -> (r: Vec<u8>)
    ensures
        r@ == streams_body(*c),
{
    proof {
        reveal_strlit("streams");
        reveal_strlit("a(ua{sv})");
        crate::pipewire::ascii_len("streams"@);
        crate::pipewire::ascii_len("a(ua{sv})"@);
    }
    let mut b: MsgBuilder = MsgBuilder::new();
    b.put_u32(0);
    let m: ArrayMark = b.open_array(8);
    b.align(8);
    b.put_str("streams");
    b.put_signature("a(ua{sv})");
    let inner: ArrayMark = b.open_array(8);
    b.align(8);
    b.put_u32(c.node_id);
    put_stream_props(&mut b, c);
    b.close_array(inner);
    b.close_array(m);
    b.buf
}

} // verus!
