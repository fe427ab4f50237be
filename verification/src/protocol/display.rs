//! The objects every client starts from: the display, its registries, callbacks.
use crate::list::find;
use crate::output::first_slot;
use crate::protocol::events::{sent, Event, Out};
use crate::protocol::{ObjectId, WL_DISPLAY_ID};
use crate::text::{decimal_text, digits, same_text};
use vstd::prelude::*;

verus! {

/// The display of a client.
#[derive(Clone, Copy, Debug)]
pub struct WlDisplay {
    pub client: u32,
}

/// A callback that fires once.
#[derive(Clone, Copy, Debug)]
pub struct WlCallback {
    pub id: ObjectId,
}

/// A registry of a client.
#[derive(Clone, Copy, Debug)]
pub struct WlRegistry {
    pub id: ObjectId,
    pub client: u32,
}

/// A global as the registry lists it.
pub struct Global {
    pub name: u32,
    pub interface: String,
    pub version: u32,
}

impl WlDisplay {
    pub fn new(client: u32) -> (d: WlDisplay)
        ensures
            d.client == client,
    {
        WlDisplay { client }
    }

    /// Answers at once: the callback lives for exactly this request. `vacant` says
    /// whether its id may be used.
    pub fn sync(&self, out: &mut Out, callback: WlCallback, vacant: Result<(), String>) -> (r: Result<(), String>)
        ensures
            match vacant {
                Ok(_) => r is Ok,
                Err(e) => r matches Err(f) && f == e,
            },
            vacant is Err ==> final(out).sent@ == old(out).sent@,
            vacant is Ok ==> final(out).sent@ == old(out).sent@.push(
                sent(self.client, callback.id, Event::CallbackDone { data: 0 }),
            ).push(sent(self.client, ObjectId(1), Event::DeleteId { id: callback.id.0 })),
    {
        match vacant {
            Ok(()) => {
                out.event(self.client, callback.id, Event::CallbackDone { data: 0 });
                out.event(self.client, ObjectId(WL_DISPLAY_ID), Event::DeleteId { id: callback.id.0 });
                Ok(())
            },
            Err(e) => Err(e),
        }
    }

    /// A new registry; it is told of every global once it is known to be usable.
    pub fn get_registry(&self, id: ObjectId) -> (r: WlRegistry)
        ensures
            r == (WlRegistry { id, client: self.client }),
    {
        WlRegistry { id, client: self.client }
    }
}

pub open spec fn global_named(name: u32) -> spec_fn(Global) -> bool {
    |g: Global| g.name == name
}

/// Why a global cannot be bound.
pub open spec fn bind_refusal(globals: Seq<Global>, name: u32, interface: Seq<char>, version: u32) -> Option<Seq<char>> {
    match first_slot(globals, global_named(name)) {
        None => Some("global "@ + digits(name as nat) + " does not exist"@),
        Some(k) => {
            let g = globals[k];
            if g.interface@ != interface {
                Some("global "@ + digits(name as nat) + " is "@ + g.interface@ + ", not "@ + interface)
            } else if version == 0 || version > g.version {
                Some("global "@ + digits(name as nat) + " only supports versions 1..="@ + digits(g.version as nat))
            } else {
                None
            }
        },
    }
}

impl WlRegistry {
    /// Tells the client of a global.
    pub fn send_global(&self, out: &mut Out, name: u32, interface: String, version: u32)
        ensures
            final(out).sent@ == old(out).sent@.push(
                sent(self.client, self.id, Event::Global { name, interface, version }),
            ),
    {
        out.event(self.client, self.id, Event::Global { name, interface, version });
    }

    /// Tells the client that a global is gone.
    pub fn send_global_remove(&self, out: &mut Out, name: u32)
        ensures
            final(out).sent@ == old(out).sent@.push(sent(self.client, self.id, Event::GlobalRemove { name })),
    {
        out.event(self.client, self.id, Event::GlobalRemove { name });
    }

    /// Whether a global may be bound under this interface and version: its slot, or
    /// why not.
    pub fn bind(&self, globals: &Vec<Global>, name: u32, interface: &str, version: u32) -> (r: Result<usize, String>)
        ensures
            match bind_refusal(globals@, name, interface@, version) {
                Some(text) => r matches Err(e) && e@ == text,
                None => r matches Ok(k) && first_slot(globals@, global_named(name)) == Some(k as int) && k
                    < globals@.len(),
            },
    {
        let shown: String = decimal_text(name as u64);
        let k: usize = match find(
            globals,
            |g: &Global| -> (b: bool) ensures b == (g.name == name) { g.name == name },
            Ghost(global_named(name)),
        ) {
            None => {
                return Err("global ".to_owned().concat(shown.as_str()).concat(" does not exist"));
            },
            Some(k) => k,
        };
        let g: &Global = &globals[k];
        if !same_text(g.interface.as_str(), interface) {
            return Err(
                "global ".to_owned().concat(shown.as_str()).concat(" is ").concat(g.interface.as_str()).concat(
                    ", not ",
                ).concat(interface),
            );
        }
        if version == 0 || version > g.version {
            let top: String = decimal_text(g.version as u64);
            return Err(
                "global ".to_owned().concat(shown.as_str()).concat(" only supports versions 1..=").concat(
                    top.as_str(),
                ),
            );
        }
        Ok(k)
    }
}

} // verus!
