//! Tearing control: a hint per surface, applied with the surface's commits, and
//! consulted only for the fullscreen surface at present time.
use crate::protocol::events::{refused, told_invalid, Out};
use crate::protocol::interfaces::Interface;
use crate::protocol::ObjectId;
use crate::text::{decimal_text, digits};
use vstd::prelude::*;

verus! {

pub const HINT_VSYNC: u32 = 0;

pub const HINT_ASYNC: u32 = 1;

pub const ERR_CONTROL_EXISTS: u32 = 0;

pub struct TearingManagerGlobal;

impl TearingManagerGlobal {
    pub fn interface(&self) -> (r: Interface)
        ensures
            r is WpTearingControlManagerV1,
    {
        Interface::WpTearingControlManagerV1
    }

    pub fn version(&self) -> (r: u32)
        ensures
            r == 1,
    {
        1
    }

    pub fn bind(&self, client: u32, id: ObjectId, version: u32) -> (r: TearingManager)
        ensures
            r == (TearingManager { id, client, version }),
    {
        TearingManager { id, client, version }
    }
}

#[derive(Clone, Copy, Debug, PartialEq, Eq, Structural)]
pub struct TearingManager {
    pub id: ObjectId,
    pub client: u32,
    pub version: u32,
}

/// The tearing side of a surface.
#[derive(Clone, Copy, Debug, PartialEq, Eq, Structural)]
pub struct SurfaceTearing {
    /// a control object exists for it
    pub control: bool,
    /// what the next commit applies
    pub pending: Option<bool>,
    /// whether it may tear
    pub current: bool,
}

/// The surface with a hint for its next commit.
pub open spec fn hinted(s: SurfaceTearing, tear: bool) -> SurfaceTearing {
    SurfaceTearing { pending: Some(tear), ..s }
}

/// The surface after a commit: a pending hint becomes current.
pub open spec fn committed(s: SurfaceTearing) -> SurfaceTearing {
    SurfaceTearing {
        current: match s.pending {
            Some(h) => h,
            None => s.current,
        },
        pending: None,
        ..s
    }
}

impl SurfaceTearing {
    pub fn new() -> (s: SurfaceTearing)
        ensures
            s == (SurfaceTearing { control: false, pending: None, current: false }),
    {
        SurfaceTearing { control: false, pending: None, current: false }
    }

    /// The surface commits: a pending hint becomes current.
    pub fn commit(&mut self)
        ensures
            *final(self) == committed(*old(self)),
    {
        match self.pending {
            Some(h) => {
                self.current = h;
            },
            None => {},
        }
        self.pending = None;
    }
}

/// The hint control of a surface.
#[derive(Clone, Copy, Debug, PartialEq, Eq, Structural)]
pub struct TearingControl {
    pub id: ObjectId,
    pub client: u32,
    pub version: u32,
}

impl TearingManager {
    /// A control for a surface that has none; `found` says whether the id names a
    /// surface.
    pub fn get_tearing_control(
        &self,
        out: &mut Out,
        id: ObjectId,
        surface: ObjectId,
        found: bool,
        s: &mut SurfaceTearing,
    ) -> (r: Option<TearingControl>)
        ensures
            !found ==> r is None && *final(s) == *old(s) && told_invalid(*old(out), *final(out), self.client, surface),
            found && old(s).control ==> r is None && *final(s) == *old(s) && refused(
                *old(out),
                *final(out),
                self.client,
                self.id,
                ERR_CONTROL_EXISTS,
                "the surface already has a tearing control"@,
            ),
            found && !old(s).control ==> {
                &&& r == Some(TearingControl { id, client: self.client, version: self.version })
                &&& *final(s) == (SurfaceTearing { control: true, ..*old(s) })
                &&& final(out).sent@ == old(out).sent@
            },
    {
        if !found {
            out.invalid_object(self.client, surface);
            return None;
        }
        if s.control {
            out.protocol_error(self.client, self.id, ERR_CONTROL_EXISTS, "the surface already has a tearing control");
            return None;
        }
        s.control = true;
        Some(TearingControl { id, client: self.client, version: self.version })
    }
}

impl TearingControl {
    /// Sets the hint for the next commit.
    pub fn set_presentation_hint(&self, out: &mut Out, s: &mut SurfaceTearing, hint: u32)
        ensures
            hint == HINT_VSYNC || hint == HINT_ASYNC ==> {
                &&& *final(s) == hinted(*old(s), hint == HINT_ASYNC)
                &&& final(out).sent@ == old(out).sent@
            },
            hint != HINT_VSYNC && hint != HINT_ASYNC ==> *final(s) == *old(s) && refused(
                *old(out),
                *final(out),
                self.client,
                self.id,
                ERR_CONTROL_EXISTS,
                digits(hint as nat) + " is not a presentation hint"@,
            ),
    {
        if hint == HINT_VSYNC {
            s.pending = Some(false);
        } else if hint == HINT_ASYNC {
            s.pending = Some(true);
        } else {
            let text: String = decimal_text(hint as u64).concat(" is not a presentation hint");
            out.protocol_error(self.client, self.id, ERR_CONTROL_EXISTS, text.as_str());
        }
    }

    /// The hint reverts to vsync with the next commit.
    pub fn destroy(&self, s: &mut SurfaceTearing)
        ensures
            *final(s) == hinted(SurfaceTearing { control: false, ..*old(s) }, false),
    {
        s.pending = Some(false);
        s.control = false;
    }

    /// The client is gone: the surface may get another control.
    pub fn break_loops(&self, s: &mut SurfaceTearing)
        ensures
            *final(s) == (SurfaceTearing { control: false, ..*old(s) }),
    {
        s.control = false;
    }
}

/// A hint takes effect with the next commit, not before, and stays until another one.
pub proof fn hints_wait_for_a_commit(s: SurfaceTearing, tear: bool)
    ensures
        hinted(s, tear).current == s.current,
        committed(hinted(s, tear)).current == tear,
        committed(committed(hinted(s, tear))).current == tear,
{
}

} // verus!
