//! The device half of rendering: the physical device that drives a drm node, its
//! queue, its memory types and the layouts it can scan out.
use crate::output::{first_slot, first_slot_absent, first_slot_found, first_slot_is_lowest};
use crate::text::same_text;
use vstd::prelude::*;

verus! {

/// Why rendering cannot start or go on.
pub enum RenderError {
    Load(String),
    NoDevice,
    MissingExt(&'static str),
    NoGraphicsQueue,
    NoMemoryType,
    /// a failed call, by its result code
    Vk(i32),
}

/// What the vulkan bindings print for a result code.
pub uninterp spec fn result_text(code: i32) -> Seq<char>;

/// `ash::vk::Result`'s debug form of a code. It is a fixed table of names (a
/// number where a code has none), so it depends on the code alone; the table
/// itself is left unsaid.
#[verifier::external_body]
fn describe_result(code: i32) -> (r: String)
    ensures
        r@ == result_text(code),
{
    format!("{:?}", ash::vk::Result::from_raw(code))
}

impl RenderError {
    pub open spec fn message_spec(self) -> Seq<char> {
        match self {
            RenderError::Load(e) => "loading the vulkan loader failed: "@ + e@,
            RenderError::NoDevice => "no vulkan device matches this drm node"@,
            RenderError::MissingExt(e) => "the device lacks "@ + e@,
            RenderError::NoGraphicsQueue => "the device has no graphics queue"@,
            RenderError::NoMemoryType => "no suitable memory type"@,
            RenderError::Vk(c) => vk_message(result_text(c)),
        }
    }

    /// The error for a reader.
    pub fn message(&self) -> (r: String)
        ensures
            r@ == self.message_spec(),
    {
        match self {
            RenderError::Load(e) => "loading the vulkan loader failed: ".to_owned().concat(e.as_str()),
            RenderError::NoDevice => "no vulkan device matches this drm node".to_owned(),
            RenderError::MissingExt(e) => "the device lacks ".to_owned().concat(e),
            RenderError::NoGraphicsQueue => "the device has no graphics queue".to_owned(),
            RenderError::NoMemoryType => "no suitable memory type".to_owned(),
            RenderError::Vk(c) => vk_error_text(describe_result(*c).as_str()),
        }
    }
}

pub open spec fn vk_message(what: Seq<char>) -> Seq<char> {
    "vulkan error: "@ + what
}

/// The message around a described result code.
pub fn vk_error_text(what: &str) -> (r: String)
    ensures
        r@ == vk_message(what@),
{
    "vulkan error: ".to_owned().concat(what)
}

/// Vulkan 1.3, as packed in an api version word.
pub const API_1_3: u32 = 0x0040_3000;

pub const QUEUE_GRAPHICS: u32 = 1;

pub const FEATURE_COLOR_ATTACHMENT: u32 = 0x80;

pub const MEMORY_EXPORTABLE: u32 = 2;

/// How many extensions a device must have.
pub const REQUIRED: usize = 7;

pub open spec fn required_spec(i: int) -> Seq<char> {
    if i == 0 {
        "VK_KHR_external_fence_fd"@
    } else if i == 1 {
        "VK_KHR_external_memory_fd"@
    } else if i == 2 {
        "VK_KHR_external_semaphore_fd"@
    } else if i == 3 {
        "VK_KHR_push_descriptor"@
    } else if i == 4 {
        "VK_EXT_external_memory_dma_buf"@
    } else if i == 5 {
        "VK_EXT_image_drm_format_modifier"@
    } else {
        "VK_EXT_queue_family_foreign"@
    }
}

/// The required extensions, by number.
pub fn required_ext(i: usize) -> (r: &'static str)
    requires
        i < REQUIRED,
    ensures
        r@ == required_spec(i as int),
{
    match i {
        0 => "VK_KHR_external_fence_fd",
        1 => "VK_KHR_external_memory_fd",
        2 => "VK_KHR_external_semaphore_fd",
        3 => "VK_KHR_push_descriptor",
        4 => "VK_EXT_external_memory_dma_buf",
        5 => "VK_EXT_image_drm_format_modifier",
        _ => "VK_EXT_queue_family_foreign",
    }
}

pub open spec fn has_ext_spec(exts: Seq<String>, name: Seq<char>) -> bool {
    exists|i: int| 0 <= i < exts.len() && (#[trigger] exts[i])@ == name
}

/// Whether a device lists an extension.
pub fn has_ext(exts: &Vec<String>, name: &str) -> (r: bool)
    ensures
        r == has_ext_spec(exts@, name@),
{
    for i in 0..exts.len()
        invariant
            forall|j: int| 0 <= j < i ==> (#[trigger] exts@[j])@ != name@,
    {
        if same_text(exts[i].as_str(), name) {
            assert(exts@[i as int]@ == name@);
            return true;
        }
    }
    false
}

/// A device number out of its two halves.
pub open spec fn makedev_spec(major: u32, minor: u32) -> u64 {
    ((major as u64 & 0xffff_f000u64) << 32u64) | ((major as u64 & 0xfffu64) << 8u64) | ((minor as u64
        & 0xffff_ff00u64) << 12u64) | (minor as u64 & 0xffu64)
}

/// `rustix::fs::makedev`: packs a major and a minor number the way the kernel
/// does, as the bit pattern stated.
#[verifier::external_body]
fn makedev(major: u32, minor: u32) -> (r: u64)
    ensures
        r == makedev_spec(major, minor),
{
    rustix::fs::makedev(major, minor)
}

/// A device node a physical device reports.
#[derive(Clone, Copy, Debug)]
pub struct DrmNode {
    pub present: bool,
    pub major: i64,
    pub minor: i64,
}

pub open spec fn node_is(n: DrmNode, rdev: u64) -> bool {
    n.present && makedev_spec(n.major as u32, n.minor as u32) == rdev
}

fn names_node(n: &DrmNode, rdev: u64) -> (r: bool)
    ensures
        r == node_is(*n, rdev),
{
    n.present && makedev(n.major as u32, n.minor as u32) == rdev
}

/// A physical device as the driver lists it.
pub struct PhysicalDevice {
    /// its extensions, or the code with which listing them failed
    pub exts: Result<Vec<String>, i32>,
    pub api_version: u32,
    pub primary: DrmNode,
    pub render: DrmNode,
    /// flags of each queue family
    pub families: Vec<u32>,
}

/// What looking at one physical device comes to.
pub enum Verdict {
    /// not the card's device
    Skip,
    Fail(i32),
    /// the card's device lacks this required extension
    Missing(int),
    NoQueue,
    Take(int),
}

pub open spec fn draws() -> spec_fn(u32) -> bool {
    |flags: u32| flags & QUEUE_GRAPHICS == QUEUE_GRAPHICS
}

/// The first required extension that is not listed.
pub open spec fn first_missing(exts: Seq<String>, from: int) -> Option<int>
    decreases REQUIRED - from,
{
    if from >= REQUIRED {
        None
    } else if !has_ext_spec(exts, required_spec(from)) {
        Some(from)
    } else {
        first_missing(exts, from + 1)
    }
}

pub open spec fn verdict(d: PhysicalDevice, rdev: u64) -> Verdict {
    match d.exts {
        Err(code) => Verdict::Fail(code),
        Ok(exts) => if !has_ext_spec(exts@, "VK_EXT_physical_device_drm"@) || d.api_version < API_1_3 || !(node_is(
            d.primary,
            rdev,
        ) || node_is(d.render, rdev)) {
            Verdict::Skip
        } else {
            match first_missing(exts@, 0) {
                Some(i) => Verdict::Missing(i),
                None => match first_slot(d.families@, draws()) {
                    Some(f) => Verdict::Take(f),
                    None => Verdict::NoQueue,
                },
            }
        },
    }
}

pub open spec fn decides(rdev: u64) -> spec_fn(PhysicalDevice) -> bool {
    |d: PhysicalDevice| !(verdict(d, rdev) is Skip)
}

/// Whether `r` is what a verdict on device `k` asks for.
pub open spec fn answers(r: Result<(usize, u32), RenderError>, k: int, v: Verdict) -> bool {
    match v {
        Verdict::Skip => false,
        Verdict::Fail(code) => r matches Err(RenderError::Vk(c)) && c == code,
        Verdict::Missing(i) => r matches Err(RenderError::MissingExt(e)) && e@ == required_spec(i),
        Verdict::NoQueue => r matches Err(RenderError::NoGraphicsQueue),
        Verdict::Take(f) => r matches Ok(p) && p.0 == k && p.1 == f as u32,
    }
}

fn missing_ext(exts: &Vec<String>) -> (r: Option<usize>)
    ensures
        match r {
            Some(i) => first_missing(exts@, 0) == Some(i as int) && i < REQUIRED,
            None => first_missing(exts@, 0) is None,
        },
{
    let mut i: usize = 0;
    while i < REQUIRED
        invariant
            i <= REQUIRED,
            first_missing(exts@, 0) == first_missing(exts@, i as int),
        decreases REQUIRED - i,
    {
        if !has_ext(exts, required_ext(i)) {
            return Some(i);
        }
        i = i + 1;
    }
    None
}

fn graphics_family(families: &Vec<u32>) -> (r: Option<usize>)
    ensures
        match r {
            Some(f) => first_slot(families@, draws()) == Some(f as int),
            None => first_slot(families@, draws()) is None,
        },
{
    for i in 0..families.len()
        invariant
            forall|j: int| 0 <= j < i ==> !draws()(#[trigger] families@[j]),
    {
        if families[i] & QUEUE_GRAPHICS == QUEUE_GRAPHICS {
            proof {
                first_slot_found(families@, draws(), i as int);
            }
            return Some(i);
        }
    }
    proof {
        first_slot_absent(families@, draws());
    }
    None
}

/// `None` when the device is not the card's.
fn consider(d: &PhysicalDevice, rdev: u64, k: usize) -> (r: Option<Result<(usize, u32), RenderError>>)
    ensures
        match r {
            None => verdict(*d, rdev) is Skip,
            Some(a) => answers(a, k as int, verdict(*d, rdev)),
        },
{
    let exts: &Vec<String> = match &d.exts {
        Err(code) => {
            return Some(Err(RenderError::Vk(*code)));
        },
        Ok(exts) => exts,
    };
    if !has_ext(exts, "VK_EXT_physical_device_drm") {
        return None;
    }
    if d.api_version < API_1_3 {
        return None;
    }
    if !names_node(&d.primary, rdev) && !names_node(&d.render, rdev) {
        return None;
    }
    match missing_ext(exts) {
        Some(i) => {
            return Some(Err(RenderError::MissingExt(required_ext(i))));
        },
        None => {},
    }
    match graphics_family(&d.families) {
        Some(f) => Some(Ok((k, f as u32))),
        None => Some(Err(RenderError::NoGraphicsQueue)),
    }
}

/// The device that drives the card with number `rdev`, and its graphics queue
/// family. Devices are looked at in order; the first that is the card's, or whose
/// extensions cannot be listed, decides.
pub fn select_device(pdevs: &Vec<PhysicalDevice>, rdev: u64) -> (r: Result<(usize, u32), RenderError>)
    ensures
        match first_slot(pdevs@, decides(rdev)) {
            None => r matches Err(RenderError::NoDevice),
            Some(k) => answers(r, k, verdict(pdevs@[k], rdev)),
        },
{
    for i in 0..pdevs.len()
        invariant
            forall|j: int| 0 <= j < i ==> !decides(rdev)(#[trigger] pdevs@[j]),
    {
        match consider(&pdevs[i], rdev, i) {
            None => {},
            Some(r) => {
                proof {
                    assert(decides(rdev)(pdevs@[i as int]));
                    first_slot_found(pdevs@, decides(rdev), i as int);
                }
                return r;
            },
        }
    }
    proof {
        first_slot_absent(pdevs@, decides(rdev));
    }
    Err(RenderError::NoDevice)
}

/// A layout modifier as the driver reports it.
#[derive(Clone, Copy, Debug)]
pub struct ModifierProps {
    pub modifier: u64,
    pub planes: u32,
    /// what images of this layout can be used for
    pub features: u32,
    /// external memory features of such images, when they can be created at all
    pub external: Option<u32>,
}

/// Renderable, and its memory can be exported.
pub open spec fn scannable() -> spec_fn(ModifierProps) -> bool {
    |p: ModifierProps|
        p.features & FEATURE_COLOR_ATTACHMENT == FEATURE_COLOR_ATTACHMENT && (p.external matches Some(e) && e
            & MEMORY_EXPORTABLE == MEMORY_EXPORTABLE)
}

pub open spec fn plane_pair() -> spec_fn(ModifierProps) -> (u64, u32) {
    |p: ModifierProps| (p.modifier, p.planes)
}

/// Modifiers a device can allocate and export for scanout, with plane counts.
pub fn scanout_modifiers(props: &Vec<ModifierProps>) -> (r: Vec<(u64, u32)>)
    ensures
        r@ == props@.filter(scannable()).map_values(plane_pair()),
{
    let mut out: Vec<(u64, u32)> = Vec::new();
    proof {
        reveal(Seq::filter);
        assert(out@ =~= props@.take(0).filter(scannable()).map_values(plane_pair()));
    }
    for i in 0..props.len()
        invariant
            out@ == props@.take(i as int).filter(scannable()).map_values(plane_pair()),
    {
        let p: ModifierProps = props[i];
        let ghost had = props@.take(i as int).filter(scannable());
        proof {
            reveal(Seq::filter);
            assert(props@.take(i + 1).drop_last() =~= props@.take(i as int));
            assert(props@.take(i + 1).last() == p);
        }
        if p.features & FEATURE_COLOR_ATTACHMENT == FEATURE_COLOR_ATTACHMENT {
            let ok: bool = match p.external {
                Some(e) => e & MEMORY_EXPORTABLE == MEMORY_EXPORTABLE,
                None => false,
            };
            if ok {
                out.push((p.modifier, p.planes));
                assert(out@ =~= had.push(p).map_values(plane_pair()));
            }
        }
    }
    assert(props@.take(props@.len() as int) =~= props@);
    out
}

/// A memory type fits when its bit is set and it has every flag.
pub open spec fn type_fits(types: Seq<u32>, i: int, bits: u32, flags: u32) -> bool {
    bits & (1u32 << i as u32) != 0 && types[i] & flags == flags
}

/// The lowest memory type among `bits` with all of `flags`. `types` holds the
/// property flags of each type.
pub fn find_memory_type(types: &Vec<u32>, bits: u32, flags: u32) -> (r: Result<u32, RenderError>)
    requires
        types@.len() <= 32,
    ensures
        match r {
            Ok(k) => k < types@.len() && type_fits(types@, k as int, bits, flags) && forall|j: int|
                0 <= j < k ==> !#[trigger] type_fits(types@, j, bits, flags),
            Err(e) => e is NoMemoryType && forall|j: int|
                0 <= j < types@.len() ==> !#[trigger] type_fits(types@, j, bits, flags),
        },
{
    for i in 0..types.len()
        invariant
            types@.len() <= 32,
            forall|j: int| 0 <= j < i ==> !#[trigger] type_fits(types@, j, bits, flags),
    {
        let k: u32 = i as u32;
        if bits & (1u32 << k) != 0 && types[i] & flags == flags {
            assert(type_fits(types@, i as int, bits, flags));
            return Ok(k);
        }
        assert(!type_fits(types@, i as int, bits, flags));
    }
    Err(RenderError::NoMemoryType)
}

/// A chosen device is the card's and has all it needs.
pub proof fn chosen_devices_are_complete(pdevs: Seq<PhysicalDevice>, rdev: u64, k: int, r: (usize, u32))
    requires
        first_slot(pdevs, decides(rdev)) == Some(k),
        answers(Ok(r), k, verdict(pdevs[k], rdev)),
    ensures
        node_is(pdevs[k].primary, rdev) || node_is(pdevs[k].render, rdev),
        pdevs[k].api_version >= API_1_3,
        pdevs[k].exts matches Ok(exts) && forall|i: int|
            0 <= i < REQUIRED ==> has_ext_spec(exts@, #[trigger] required_spec(i)),
{
    first_slot_is_lowest(pdevs, decides(rdev));
    let exts = pdevs[k].exts->Ok_0;
    assert forall|i: int| 0 <= i < REQUIRED implies has_ext_spec(exts@, #[trigger] required_spec(i)) by {
        none_missing(exts@, 0, i);
    }
}

proof fn none_missing(exts: Seq<String>, from: int, i: int)
    requires
        first_missing(exts, from) is None,
        from <= i < REQUIRED,
    ensures
        has_ext_spec(exts, required_spec(i)),
    decreases REQUIRED - from,
{
    if from < i {
        none_missing(exts, from + 1, i);
    }
}

} // verus!
