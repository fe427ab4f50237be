//! What the renderer holds on to, what it lets go of, and which driver it looks for.
use crate::output::{first_slot, first_slot_found, first_slot_is_lowest};
use crate::render::loader::{absolute, components_before, icd_matches_spec, joined, library_spec};
use crate::render::renderer::PreUpload;
use crate::render::resources::{
    claim_spec, kept_imports, pruned_doomed, settled, staging_doomed, Claim, Doomed, HostImport, UPLOAD_SLOTS,
};
use crate::text::occurs;
use vstd::prelude::*;

verus! {

/// An upload takes the first slot whose fence has signalled; where a fence before it failed,
/// that is reported. With every slot still busy another is made, up to three.
pub proof fn uploads_take_the_first_free_slot(fences: Seq<Result<bool, i32>>, k: int)
    ensures
        0 <= k < fences.len() && k <= usize::MAX && fences[k] == Ok::<bool, i32>(true) && (forall|j: int|
            0 <= j < k ==> #[trigger] fences[j] == Ok::<bool, i32>(false)) ==> claim_spec(fences) == Claim::Use(k as usize),
        0 <= k < fences.len() && fences[k] is Err && (forall|j: int|
            0 <= j < k ==> #[trigger] fences[j] == Ok::<bool, i32>(false)) ==> claim_spec(fences) == Claim::Failed(fences[k]->Err_0),
        (forall|j: int| 0 <= j < fences.len() ==> #[trigger] fences[j] == Ok::<bool, i32>(false)) ==> claim_spec(fences) == (
        if fences.len() < 3 { Claim::Grow } else { Claim::Busy }),
{
    first_slot_is_lowest(fences, settled());
    if 0 <= k < fences.len() && fences[k] != Ok::<bool, i32>(false) && (forall|j: int|
        0 <= j < k ==> #[trigger] fences[j] == Ok::<bool, i32>(false)) {
        assert forall|j: int| 0 <= j < k implies !settled()(#[trigger] fences[j]) by {}
        assert(settled()(fences[k]));
        first_slot_found(fences, settled(), k);
    }
}

/// Of the imported pools just those stay that are still shared; of each other one the buffer
/// and the memory go, once.
pub proof fn unshared_imports_go(imports: Seq<HostImport>, shared: Seq<bool>)
    requires
        shared.len() == imports.len(),
    ensures
        forall|h: HostImport|
            #[trigger] kept_imports(imports, shared).contains(h) <==> exists|i: int|
                0 <= i < imports.len() && #[trigger] imports[i] == h && shared[i],
        pruned_doomed(imports, shared).len() == 2 * (imports.len() - kept_imports(imports, shared).len()),
        forall|i: int|
            0 <= i < imports.len() && !shared[i] ==> pruned_doomed(imports, shared).contains(
                Doomed::Buffer((#[trigger] imports[i]).buffer),
            ) && pruned_doomed(imports, shared).contains(Doomed::Memory(imports[i].memory)),
    decreases imports.len(),
{
    if imports.len() > 0 {
        let a = imports.drop_last();
        let s = shared.drop_last();
        unshared_imports_go(a, s);
        let front = kept_imports(a, s);
        let all = kept_imports(imports, shared);
        let fd = pruned_doomed(a, s);
        let ad = pruned_doomed(imports, shared);
        let n = imports.len() - 1;
        assert forall|h: HostImport| #[trigger] all.contains(h) <==> exists|i: int|
            0 <= i < imports.len() && #[trigger] imports[i] == h && shared[i] by {
            if all.contains(h) {
                let j = choose|j: int| 0 <= j < all.len() && all[j] == h;
                if j < front.len() {
                    assert(front[j] == h);
                    assert(front.contains(h));
                    let i = choose|i: int| 0 <= i < a.len() && #[trigger] a[i] == h && s[i];
                    assert(imports[i] == h && shared[i]);
                } else {
                    assert(imports[n] == h && shared[n]);
                }
            }
            if exists|i: int| 0 <= i < imports.len() && #[trigger] imports[i] == h && shared[i] {
                let i = choose|i: int| 0 <= i < imports.len() && #[trigger] imports[i] == h && shared[i];
                if i < n {
                    assert(a[i] == h && s[i]);
                    assert(front.contains(h));
                    let j = choose|j: int| 0 <= j < front.len() && front[j] == h;
                    assert(all[j] == h);
                } else {
                    assert(all.last() == h);
                }
            }
        }
        assert forall|i: int| 0 <= i < imports.len() && !shared[i] implies ad.contains(
            Doomed::Buffer((#[trigger] imports[i]).buffer),
        ) && ad.contains(Doomed::Memory(imports[i].memory)) by {
            if i < n {
                assert(a[i] == imports[i] && !s[i]);
                let x = choose|x: int| 0 <= x < fd.len() && fd[x] == Doomed::Buffer(imports[i].buffer);
                let y = choose|y: int| 0 <= y < fd.len() && fd[y] == Doomed::Memory(imports[i].memory);
                assert(ad[x] == fd[x] && ad[y] == fd[y]);
            } else {
                assert(ad[fd.len() as int] == Doomed::Buffer(imports[i].buffer));
                assert(ad[fd.len() as int + 1] == Doomed::Memory(imports[i].memory));
            }
        }
    }
}

/// A retired frame frees the buffer and the memory of its own staging, and of no imported
/// pool.
pub proof fn frames_free_their_own_staging(us: Seq<PreUpload>, i: int)
    requires
        0 <= i < us.len(),
    ensures
        us[i].owned ==> staging_doomed(us).contains(Doomed::Buffer(us[i].buffer)) && staging_doomed(us).contains(
            Doomed::Memory(us[i].memory),
        ),
        (forall|j: int| 0 <= j < us.len() ==> !(#[trigger] us[j]).owned) ==> staging_doomed(us).len() == 0,
        (forall|j: int| 0 <= j < us.len() ==> (#[trigger] us[j]).owned) ==> staging_doomed(us).len() == 2 * us.len(),
    decreases us.len(),
{
    let rest = us.drop_last();
    let front = staging_doomed(rest);
    let all = staging_doomed(us);
    if rest.len() > 0 {
        frames_free_their_own_staging(rest, if i < rest.len() { i } else { 0 });
    }
    if forall|j: int| 0 <= j < us.len() ==> !(#[trigger] us[j]).owned {
        assert(forall|j: int| 0 <= j < rest.len() ==> rest[j] == us[j]);
        assert(!us[us.len() - 1].owned);
    }
    if forall|j: int| 0 <= j < us.len() ==> (#[trigger] us[j]).owned {
        assert(forall|j: int| 0 <= j < rest.len() ==> rest[j] == us[j]);
        assert(us[us.len() - 1].owned);
    }
    if us[i].owned {
        if i < rest.len() {
            let x = choose|x: int| 0 <= x < front.len() && front[x] == Doomed::Buffer(us[i].buffer);
            let y = choose|y: int| 0 <= y < front.len() && front[y] == Doomed::Memory(us[i].memory);
            assert(all[x] == front[x] && all[y] == front[y]);
        } else {
            assert(all[front.len() as int] == Doomed::Buffer(us[i].buffer));
            assert(all[front.len() as int + 1] == Doomed::Memory(us[i].memory));
        }
    }
}

/// A library that a manifest names by an absolute path is that file; one with directories is
/// looked for from the manifest's; a bare name is left to the search path.
pub proof fn libraries_are_where_their_manifest_says(anchor: Option<Seq<char>>, lp: Seq<char>)
    ensures
        absolute(lp) ==> library_spec(anchor, lp) == Some(lp),
        !absolute(lp) && components_before(lp, lp.len() as int) > 1 && anchor is Some ==> library_spec(anchor, lp) == Some(
            joined(anchor->0, lp),
        ),
        !absolute(lp) && components_before(lp, lp.len() as int) <= 1 ==> library_spec(anchor, lp) is None,
{
}

/// A kernel driver is served by the libraries of its vendor: both Intel drivers alike, without
/// the one for old hardware; both Radeon drivers alike; any other by its own name, nouveau
/// also by its newer one.
pub proof fn drivers_are_served_by_their_vendor(file: Seq<char>, other: Seq<char>)
    ensures
        icd_matches_spec("i915"@, file) == icd_matches_spec("xe"@, file),
        icd_matches_spec("xe"@, file) <==> occurs(file, "intel"@) && !occurs(file, "hasvk"@),
        icd_matches_spec("amdgpu"@, file) == icd_matches_spec("radeon"@, file),
        icd_matches_spec("radeon"@, file) <==> occurs(file, "radeon"@),
        icd_matches_spec("nouveau"@, file) <==> occurs(file, "nouveau"@) || occurs(file, "nvk"@),
        other != "i915"@ && other != "xe"@ && other != "amdgpu"@ && other != "nouveau"@ ==> (icd_matches_spec(other, file)
            <==> occurs(file, other)),
{
    reveal_strlit("i915");
    reveal_strlit("xe");
    reveal_strlit("amdgpu");
    reveal_strlit("radeon");
    reveal_strlit("nouveau");
    assert("i915"@.len() == 4);
    assert("xe"@.len() == 2);
    assert("amdgpu"@.len() == 6);
    assert("radeon"@.len() == 6);
    assert("nouveau"@.len() == 7);
}

} // verus!
