//! How layer surfaces come to be, are mapped and unmapped, and take the keyboard.
use crate::protocol::{ObjectId, SurfaceFacts};
use crate::shell::layer::{
    applied, applied_list, default_state, holds_keyboard, slot_for, surface_fault, wants_keyboard, zone_in_range, Applied,
    LayerSurface, ALREADY_CONSTRUCTED, INVALID_LAYER, KI_EXCLUSIVE, ROLE, TOP,
};
use vstd::prelude::*;

verus! {

/// A layer surface is made exactly on one of the four layers, from a surface without a role
/// and without a buffer; what is broken first is what the request is refused for.
pub proof fn layer_surfaces_need_a_bare_surface(s: SurfaceFacts, layer: u32)
    ensures
        surface_fault(s, layer) is None <==> layer < 4 && !s.live_role && s.other_role is None && !s.has_buffer,
        surface_fault(s, layer) matches Some(f) ==> {
            &&& f.0 == INVALID_LAYER <==> layer >= 4
            &&& f.0 == ALREADY_CONSTRUCTED <==> layer < 4 && !s.live_role && s.other_role is None
            &&& layer < 4 && (s.live_role || s.other_role is Some) ==> f.0 == ROLE
            &&& f.2 <==> f.0 == ALREADY_CONSTRUCTED
        },
{
}

/// A new layer surface goes to the output that its client names, where it names one that is
/// lit, else to the focused one.
pub proof fn layer_surfaces_go_where_they_are_asked(output: ObjectId, lit: Option<usize>, focused: usize)
    ensures
        output.0 != 0 && lit is Some ==> slot_for(output, lit, focused) == lit->0,
        output.0 == 0 || lit is None ==> slot_for(output, lit, focused) == focused,
{
}

/// An exclusive zone is kept as it is asked for, as far as it is in range; one beyond is the
/// nearest in range.
pub proof fn zones_are_kept_in_range(v: i32)
    ensures
        -1 <= zone_in_range(v) <= 65535,
        -1 <= v <= 65535 ==> zone_in_range(v) == v,
        v < -1 ==> zone_in_range(v) == -1,
        v > 65535 ==> zone_in_range(v) == 65535,
{
}

/// A commit maps a configured surface that is not mapped yet just when it shows a buffer: it
/// moves to the end of the order, the others keep theirs. It unmaps one that is mapped just
/// when it shows none: its state starts over. The first commit of a cycle schedules the
/// configure. A closed surface stays as it is, and no commit changes another surface.
pub proof fn commits_map_and_unmap(list: Seq<LayerSurface>, k: int, shows: bool, j: int)
    requires
        0 <= k < list.len(),
        0 <= j < list.len(),
        j != k,
    ensures
        ({
            let after = applied_list(list, k, shows);
            let l = list[k];
            let maps = !l.closed && l.configured && !l.linked && shows;
            &&& after.len() == list.len()
            &&& maps ==> {
                &&& after.last() == (LayerSurface { linked: true, shows, ..l })
                &&& j < k ==> after[j] == list[j]
                &&& j > k ==> after[j - 1] == list[j]
            }
            &&& !maps ==> {
                &&& after[j] == list[j]
                &&& after[k].linked == (l.linked && (shows || l.closed || !l.configured))
                &&& after[k].shows == shows
                &&& !l.closed && !l.configured ==> after[k].configured && after[k].scheduled
                &&& !l.closed && l.configured && l.linked && !shows ==> {
                    &&& !after[k].configured
                    &&& after[k].current == default_state(l.created_layer) && after[k].pending == default_state(
                        l.created_layer,
                    )
                }
                &&& l.closed || (l.configured && l.linked == shows) ==> after[k] == (LayerSurface { shows, ..l })
            }
        }),
{
}

/// At most one surface holds the keyboard: a mapped one that asks for it alone, on the top
/// layer or above; none on a higher layer asks, nor one mapped later on its own.
pub proof fn one_surface_holds_the_keyboard(list: Seq<LayerSurface>, k: int, j: int)
    requires
        holds_keyboard(list, k),
        0 <= j < list.len(),
    ensures
        list[k].current.ki == KI_EXCLUSIVE && list[k].is_mapped() && (list[k].current.layer == 2 || list[k].current.layer > 2),
        holds_keyboard(list, j) ==> j == k,
        list[j].current.ki == KI_EXCLUSIVE && list[j].is_mapped() && list[j].current.layer > list[k].current.layer ==> list[j].current.layer
            < 2,
        j > k && list[j].current.layer == list[k].current.layer ==> !(list[j].current.ki == KI_EXCLUSIVE && list[j].is_mapped()),
{
    assert(wants_keyboard(list[j]) ==> list[j].current.layer < list[k].current.layer || (list[j].current.layer
        == list[k].current.layer && j <= k));
}

} // verus!
