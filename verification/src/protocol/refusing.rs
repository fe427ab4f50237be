//! Which requests are refused.
use crate::output::{first_slot_found, first_slot_is_lowest};
use crate::protocol::display::{bind_refusal, global_named, Global};
use crate::protocol::wire::{parse_spec, ParsedV};
use crate::protocol::{dispatch_spec, queue_after, DispatchError, MessageV};
use vstd::prelude::*;

verus! {

/// A global is bound exactly when one of that name is there, is of the interface that is asked
/// for, and has the version, which starts at one.
pub proof fn globals_bind_as_they_are(globals: Seq<Global>, name: u32, interface: Seq<char>, version: u32, k: int)
    ensures
        0 <= k < globals.len() && globals[k].name == name && (forall|j: int|
            0 <= j < k ==> (#[trigger] globals[j]).name != name) ==> (bind_refusal(globals, name, interface, version) is None
            <==> globals[k].interface@ == interface && 1 <= version <= globals[k].version),
        (forall|j: int| 0 <= j < globals.len() ==> (#[trigger] globals[j]).name != name) ==> bind_refusal(
            globals,
            name,
            interface,
            version,
        ) is Some,
{
    first_slot_is_lowest(globals, global_named(name));
    if 0 <= k < globals.len() && globals[k].name == name && (forall|j: int| 0 <= j < k ==> (#[trigger] globals[j]).name != name) {
        assert forall|j: int| 0 <= j < k implies !global_named(name)(#[trigger] globals[j]) by {}
        first_slot_found(globals, global_named(name), k);
    }
}

/// A request is decoded exactly when its interface has that opcode in the version that the
/// object is bound at, and its arguments are well formed; one that the version does not have
/// takes no descriptor.
pub proof fn requests_need_their_version(rows: Seq<MessageV>, version: u32, opcode: u32, body: Seq<u8>, fds: Seq<u32>)
    ensures
        dispatch_spec(rows, version, opcode, body, fds) == Err::<ParsedV, DispatchError>(DispatchError::UnknownOpcode(opcode))
            <==> opcode >= rows.len() || rows[opcode as int].since > version,
        opcode < rows.len() && rows[opcode as int].since <= version ==> {
            &&& dispatch_spec(rows, version, opcode, body, fds) is Ok <==> parse_spec(rows[opcode as int].args, body, fds) is Ok
            &&& dispatch_spec(rows, version, opcode, body, fds) matches Ok(p) ==> parse_spec(rows[opcode as int].args, body, fds)
                == Ok::<ParsedV, crate::protocol::wire::WireError>(p)
        },
        opcode >= rows.len() || rows[opcode as int].since > version ==> queue_after(rows, version, opcode, body, fds) == fds,
{
}

} // verus!
