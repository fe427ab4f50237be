//! The wayland protocol: object ids, dispatch of requests, and the objects of each
//! interface.

pub mod capturing;
pub mod data_control;
pub mod data_device;
pub mod dragging;
pub mod display;
pub mod events;
pub mod foreign_toplevel;
pub mod idle;
pub mod image_copy_capture;
pub mod interfaces;
pub mod locking;
pub mod offering;
pub mod pointer_constraints;
pub mod primary_selection;
pub mod refusing;
pub mod screencopy;
pub mod selection;
pub mod session_lock;
pub mod shm;
pub mod tearing;
pub mod telling;
pub mod wire;
pub mod xdg_activation;

use crate::protocol::interfaces::{lettered, requests, requests_spec, table, Interface, MessageV};
use crate::protocol::wire::{fds_after, parse, parse_spec, views, Arg, Message, ParsedV, WireError};
use crate::text::{decimal_text, digits};
use vstd::prelude::*;

verus! {

/// An object of a client.
#[derive(Copy, Clone, Debug, PartialEq, Eq, Hash, PartialOrd, Ord, Structural)]
pub struct ObjectId(pub u32);

/// the display is every client's first object
pub const WL_DISPLAY_ID: u32 = 1;

/// server-allocated ids start here
pub const MIN_SERVER_ID: u32 = 0xff00_0000;

impl ObjectId {
    /// Whether the server allocated it.
    pub fn is_server(self) -> (r: bool)
        ensures
            r == (self.0 >= 0xff00_0000),
    {
        self.0 >= MIN_SERVER_ID
    }

    /// The id for a reader.
    pub fn text(self) -> (r: String)
        ensures
            r@ == "#"@ + digits(self.0 as nat),
    {
        let n: String = decimal_text(self.0 as u64);
        "#".to_owned().concat(n.as_str())
    }
}

/// signed 24.8 fixed point
#[derive(Copy, Clone, Debug, PartialEq, Eq, Structural)]
pub struct Fixed(pub i32);

/// Integers of 24 bits are exact, and keep their order.
pub proof fn small_integers_are_exact(v: i32, w: i32)
    requires
        -8_388_608 <= v < w <= 8_388_607,
    ensures
        Fixed::of_int(v).0 == v * 256,
        Fixed::of_int(w).0 == w * 256,
        Fixed::of_int(v).0 < Fixed::of_int(w).0,
{
    assert(-0x80_0000 <= v <= 0x7f_ffff ==> (((v as u32) << 8u32) as i32) == v * 256) by (bit_vector);
    assert(-0x80_0000 <= w <= 0x7f_ffff ==> (((w as u32) << 8u32) as i32) == w * 256) by (bit_vector);
}

/// Only the low 24 bits of an integer count.
pub proof fn high_bits_are_dropped(v: i32, w: i32)
    requires
        v as u32 & 0xff_ffffu32 == w as u32 & 0xff_ffffu32,
    ensures
        Fixed::of_int(v) == Fixed::of_int(w),
{
    assert((((v as u32) << 8u32) as i32) == (((w as u32) << 8u32) as i32)) by (bit_vector)
        requires
            v as u32 & 0xff_ffffu32 == w as u32 & 0xff_ffffu32,
    ;
}

impl Fixed {
    pub open spec fn of_int(v: i32) -> Fixed {
        Fixed(((v as u32) << 8u32) as i32)
    }

    /// The integer `v`; bits that do not fit are dropped.
    pub fn from_int(v: i32) -> (r: Fixed)
        ensures
            r == Fixed::of_int(v),
            -0x80_0000 <= v <= 0x7f_ffff ==> r.0 == v * 256,
    {
        let w: u32 = v as u32;
        let s: u32 = w << 8u32;
        assert(-0x80_0000 <= v <= 0x7f_ffff ==> (((v as u32) << 8u32) as i32) == v * 256) by (bit_vector);
        Fixed(s as i32)
    }
}

/// What a request about a role needs to know of a surface.
pub struct SurfaceFacts {
    /// never reused
    pub uid: u64,
    /// an object of some role still drives it
    pub live_role: bool,
    /// the name of a different role that it was given before
    pub other_role: Option<String>,
    /// a buffer is attached or committed
    pub has_buffer: bool,
}

/// A time as events carry it: seconds in two words, and nanoseconds.
#[derive(Copy, Clone, Debug, PartialEq, Eq, Structural)]
pub struct Stamp {
    pub sec_hi: u32,
    pub sec_lo: u32,
    pub nsec: u32,
}

pub open spec fn stamp_spec(nsec: u64) -> Stamp {
    let sec = nsec / 1_000_000_000;
    Stamp {
        sec_hi: (sec / 0x1_0000_0000) as u32,
        sec_lo: (sec % 0x1_0000_0000) as u32,
        nsec: (nsec % 1_000_000_000) as u32,
    }
}

/// Splits a time in nanoseconds.
pub fn stamp(nsec: u64) -> (r: Stamp)
    ensures
        r == stamp_spec(nsec),
        (r.sec_hi * 0x1_0000_0000 + r.sec_lo) * 1_000_000_000 + r.nsec == nsec,
        r.nsec < 1_000_000_000,
{
    let sec: u64 = nsec / 1_000_000_000;
    Stamp {
        sec_hi: (sec / 0x1_0000_0000) as u32,
        sec_lo: (sec % 0x1_0000_0000) as u32,
        nsec: (nsec % 1_000_000_000) as u32,
    }
}

/// Why a request is not carried out.
pub enum DispatchError {
    /// also what a too-old bound version gets: indistinguishable from a bad opcode
    UnknownOpcode(u32),
    Wire(WireError),
    Handler(String),
}

impl DispatchError {
    pub open spec fn message_spec(self) -> Seq<char> {
        match self {
            DispatchError::UnknownOpcode(op) => "unknown opcode "@ + digits(op as nat),
            DispatchError::Wire(e) => "malformed request: "@ + e.text_spec(),
            DispatchError::Handler(e) => e@,
        }
    }

    /// The error for a reader.
    pub fn message(&self) -> (r: String)
        ensures
            r@ == self.message_spec(),
    {
        match self {
            DispatchError::UnknownOpcode(op) => {
                let n: String = decimal_text(*op as u64);
                "unknown opcode ".to_owned().concat(n.as_str())
            },
            DispatchError::Wire(e) => "malformed request: ".to_owned().concat(e.text()),
            DispatchError::Handler(e) => e.clone(),
        }
    }
}

/// What becomes of a request with this opcode on an object bound at `version`: its
/// arguments, or why there are none.
pub open spec fn dispatch_spec(
    rows: Seq<MessageV>,
    version: u32,
    opcode: u32,
    body: Seq<u8>,
    fds: Seq<u32>,
) -> Result<ParsedV, DispatchError> {
    if opcode >= rows.len() || version < rows[opcode as int].since {
        Err(DispatchError::UnknownOpcode(opcode))
    } else {
        match parse_spec(rows[opcode as int].args, body, fds) {
            Ok(p) => Ok(p),
            Err(e) => Err(DispatchError::Wire(e)),
        }
    }
}

/// The queue of descriptors after a request was decoded or refused.
pub open spec fn queue_after(rows: Seq<MessageV>, version: u32, opcode: u32, body: Seq<u8>, fds: Seq<u32>) -> Seq<u32> {
    if opcode >= rows.len() || version < rows[opcode as int].since {
        fds
    } else {
        fds_after(rows[opcode as int].args, body, fds)
    }
}

/// Decodes a request by a table of messages. `fds` is the queue of received file
/// descriptors, of which the request takes its own.
pub fn dispatch_by(rows: &Vec<Message>, version: u32, opcode: u32, body: &Vec<u8>, fds: &mut Vec<u32>) -> (r: Result<
    Vec<Arg>,
    DispatchError,
>)
    requires
        lettered(rows@),
    ensures
        match dispatch_spec(table(rows@), version, opcode, body@, old(fds)@) {
            Ok(p) => r matches Ok(args) && views(args@) == p.args && final(fds)@ == p.fds,
            Err(e) => r == Err::<Vec<Arg>, DispatchError>(e),
        },
        final(fds)@ == queue_after(table(rows@), version, opcode, body@, old(fds)@),
{
    if opcode as usize >= rows.len() {
        return Err(DispatchError::UnknownOpcode(opcode));
    }
    let m: &Message = &rows[opcode as usize];
    if version < m.since {
        return Err(DispatchError::UnknownOpcode(opcode));
    }
    match parse(m.args, body, fds) {
        Ok(args) => Ok(args),
        Err(e) => Err(DispatchError::Wire(e)),
    }
}

/// Decodes a request on an object of an interface, bound at `version`.
pub fn dispatch(i: Interface, version: u32, opcode: u32, body: &Vec<u8>, fds: &mut Vec<u32>) -> (r: Result<
    Vec<Arg>,
    DispatchError,
>)
    ensures
        match dispatch_spec(requests_spec(i), version, opcode, body@, old(fds)@) {
            Ok(p) => r matches Ok(args) && views(args@) == p.args && final(fds)@ == p.fds,
            Err(e) => r == Err::<Vec<Arg>, DispatchError>(e),
        },
        final(fds)@ == queue_after(requests_spec(i), version, opcode, body@, old(fds)@),
{
    let rows: Vec<Message> = requests(i);
    dispatch_by(&rows, version, opcode, body, fds)
}

} // verus!
