//! Finding the vulkan driver of a card: library paths, driver manifests, and the
//! thread-local surplus handed to drivers with static tls.
use crate::output::{first_slot, first_slot_absent, first_slot_found};
use crate::render::vulkan::RenderError;
use crate::text::{characters, contains_text, decimal_text, digits, occurs, pieces, same_text, split_on, texts};
use vstd::prelude::*;

verus! {

// -- static tls surplus --

pub const SURPLUS_SIZE: usize = 1024;

pub const SURPLUS_ALIGN: usize = 64;

/// Space reserved in the executable's own tls segment for drivers whose blocks
/// must sit at a fixed offset in every thread.
pub struct TlsSurplus {
    /// where the free part begins
    pub next: usize,
}

/// The start of a block: the free part rounded up to the alignment.
pub open spec fn block_start(next: usize, align: usize) -> usize {
    (((next + align - 1) as usize) & !((align - 1) as usize)) as usize
}

impl TlsSurplus {
    pub open spec fn wf(self) -> bool {
        self.next <= SURPLUS_SIZE
    }

    pub fn new() -> (s: TlsSurplus)
        ensures
            s.wf(),
            s.next == 0,
    {
        TlsSurplus { next: 0 }
    }

    /// Takes a block; `None`, and nothing changes, when the alignment is too
    /// large or no space is left.
    pub fn alloc_static_tls(&mut self, size: usize, align: usize) -> (r: Option<usize>)
        requires
            old(self).wf(),
            align > 0,
            align <= SURPLUS_ALIGN ==> block_start(old(self).next, align) + size <= usize::MAX,
        ensures
            final(self).wf(),
            ({
                let start = block_start(old(self).next, align);
                if align > SURPLUS_ALIGN || start + size > SURPLUS_SIZE {
                    r is None && *final(self) == *old(self)
                } else {
                    r == Some(start) && final(self).next == start + size
                }
            }),
    {
        if align > SURPLUS_ALIGN {
            return None;
        }
        let up: usize = self.next + align - 1;
        let mask: usize = !(align - 1);
        let start: usize = up & mask;
        assert(up & mask <= up) by (bit_vector);
        if start + size > SURPLUS_SIZE {
            return None;
        }
        self.next = start + size;
        Some(start)
    }
}

/// With a power of two as alignment a block starts on it, at or after the free
/// part and less than one alignment beyond.
pub proof fn blocks_are_aligned(next: usize, align: usize)
    requires
        next <= SURPLUS_SIZE,
        align == 1 || align == 2 || align == 4 || align == 8 || align == 16 || align == 32 || align == 64,
    ensures
        next <= block_start(next, align) < next + align,
        block_start(next, align) % align == 0,
{
    let up = (next + align - 1) as usize;
    if align == 1 {
        assert(up & !0usize <= up && up - (up & !0usize) <= 0 && (up & !0usize) % 1usize == 0) by (bit_vector);
    } else if align == 2 {
        assert(up & !1usize <= up && up - (up & !1usize) <= 1 && (up & !1usize) % 2usize == 0) by (bit_vector);
    } else if align == 4 {
        assert(up & !3usize <= up && up - (up & !3usize) <= 3 && (up & !3usize) % 4usize == 0) by (bit_vector);
    } else if align == 8 {
        assert(up & !7usize <= up && up - (up & !7usize) <= 7 && (up & !7usize) % 8usize == 0) by (bit_vector);
    } else if align == 16 {
        assert(up & !15usize <= up && up - (up & !15usize) <= 15 && (up & !15usize) % 16usize == 0) by (bit_vector);
    } else if align == 32 {
        assert(up & !31usize <= up && up - (up & !31usize) <= 31 && (up & !31usize) % 32usize == 0) by (bit_vector);
    } else {
        assert(up & !63usize <= up && up - (up & !63usize) <= 63 && (up & !63usize) % 64usize == 0) by (bit_vector);
    }
}

/// Two blocks handed out one after the other never overlap.
pub proof fn blocks_are_disjoint(next: usize, size: usize, align: usize, later: usize)
    requires
        next <= SURPLUS_SIZE,
        align == 1 || align == 2 || align == 4 || align == 8 || align == 16 || align == 32 || align == 64,
        later == 1 || later == 2 || later == 4 || later == 8 || later == 16 || later == 32 || later == 64,
        block_start(next, align) + size <= SURPLUS_SIZE,
    ensures
        block_start(next, align) + size <= block_start((block_start(next, align) + size) as usize, later),
{
    blocks_are_aligned(next, align);
    blocks_are_aligned((block_start(next, align) + size) as usize, later);
}

// -- paths --

/// Whether a path starts at the root.
pub open spec fn absolute(p: Seq<char>) -> bool {
    p.len() > 0 && p[0] == '/'
}

pub fn is_absolute(p: &str) -> (r: bool)
    ensures
        r == absolute(p@),
{
    p.unicode_len() > 0 && p.get_char(0) == '/'
}

/// A path below a directory. An absolute path stands for itself.
pub open spec fn joined(dir: Seq<char>, p: Seq<char>) -> Seq<char> {
    if absolute(p) {
        p
    } else if dir.len() == 0 || dir.last() == '/' {
        dir + p
    } else {
        dir + "/"@ + p
    }
}

pub fn join(dir: &str, p: &str) -> (r: String)
    ensures
        r@ == joined(dir@, p@),
{
    if is_absolute(p) {
        return p.to_owned();
    }
    let n: usize = dir.unicode_len();
    if n == 0 || dir.get_char(n - 1) == '/' {
        dir.to_owned().concat(p)
    } else {
        dir.to_owned().concat("/").concat(p)
    }
}

/// Whether a component of a path starts at `k`. Empty parts count for nothing,
/// nor does `.` unless the path starts with it.
pub open spec fn component_at(p: Seq<char>, k: int) -> bool {
    &&& 0 <= k < p.len()
    &&& k == 0 || p[k - 1] == '/'
    &&& p[k] != '/'
    &&& !(k > 0 && p[k] == '.' && (k + 1 == p.len() || p[k + 1] == '/'))
}

/// How many components start before `n`.
pub open spec fn components_before(p: Seq<char>, n: int) -> nat
    decreases n,
{
    if n <= 0 {
        0
    } else {
        components_before(p, n - 1) + if component_at(p, n - 1) { 1nat } else { 0nat }
    }
}

/// The number of components of a relative path.
pub fn component_count(p: &str) -> (r: usize)
    ensures
        r == components_before(p@, p@.len() as int),
{
    let cs: Vec<char> = characters(p);
    let mut count: usize = 0;
    for k in 0..cs.len()
        invariant
            cs@ == p@,
            count <= k,
            count == components_before(p@, k as int),
    {
        let starts: bool = (k == 0 || cs[k - 1] == '/') && cs[k] != '/' && !(k > 0 && cs[k] == '.' && (k + 1
            == cs.len() || cs[k + 1] == '/'));
        assert(starts == component_at(p@, k as int));
        if starts {
            count = count + 1;
        }
    }
    count
}

/// The path without its last component.
pub uninterp spec fn parent_spec(p: Seq<char>) -> Option<Seq<char>>;

/// `std::path::Path::parent`: the path without its final component, none for a
/// root or an empty path. Which text that leaves is the standard library's to say.
#[verifier::external_body]
fn parent(p: &str) -> (r: Option<String>)
    ensures
        match r {
            Some(d) => parent_spec(p@) == Some(d@),
            None => parent_spec(p@) is None,
        },
{
    std::path::Path::new(p).parent().and_then(|d| d.to_str()).map(|d| d.to_string())
}

/// The last component of a path.
pub uninterp spec fn file_name_spec(p: Seq<char>) -> Option<Seq<char>>;

/// `std::path::Path::file_name`: the final component, none where the path ends in
/// the root or in `..`.
#[verifier::external_body]
fn file_name(p: &str) -> (r: Option<String>)
    ensures
        match r {
            Some(d) => file_name_spec(p@) == Some(d@),
            None => file_name_spec(p@) is None,
        },
{
    std::path::Path::new(p).file_name().and_then(|d| d.to_str()).map(|d| d.to_string())
}

/// Whether two paths have the same components.
pub uninterp spec fn same_path_spec(a: Seq<char>, b: Seq<char>) -> bool;

/// Equality of `std::path::Path`, which compares component by component.
#[verifier::external_body]
fn same_path(a: &str, b: &str) -> (r: bool)
    ensures
        r == same_path_spec(a@, b@),
{
    std::path::Path::new(a) == std::path::Path::new(b)
}

/// The text in lower case.
pub uninterp spec fn lower_spec(s: Seq<char>) -> Seq<char>;

/// `str::to_lowercase`: each character by its Unicode lower case mapping.
#[verifier::external_body]
fn lower(s: &str) -> (r: String)
    ensures
        r@ == lower_spec(s@),
{
    s.to_lowercase()
}

/// The string under two keys of a json document, if there is one.
pub uninterp spec fn json_text_at(doc: Seq<char>, outer: Seq<char>, inner: Seq<char>) -> Option<Seq<char>>;

/// `serde_json::from_str` into a value tree, then the string at `outer`, `inner`.
/// None where the document does not parse, a key is absent or no string is there.
#[verifier::external_body]
fn json_string(doc: &str, outer: &str, inner: &str) -> (r: Option<String>)
    ensures
        match r {
            Some(s) => json_text_at(doc@, outer@, inner@) == Some(s@),
            None => json_text_at(doc@, outer@, inner@) is None,
        },
{
    let v: serde_json::Value = serde_json::from_str(doc).ok()?;
    let s = v.get(outer)?.get(inner)?.as_str()?;
    Some(s.to_string())
}

// -- preloaded libraries --

/// The places a preloaded library is looked for: the staging directory, next to
/// the binary, and the install directory beside it.
pub open spec fn taproot_places(name: Seq<char>, staging: Option<Seq<char>>, exe_dir: Option<Seq<char>>) -> Seq<
    Seq<char>,
> {
    let first = match staging {
        Some(d) => seq![joined(d, name)],
        None => Seq::empty(),
    };
    let rest = match exe_dir {
        Some(d) => seq![joined(d, name), joined(joined(d, "../lib/carrot"@), name)],
        None => Seq::empty(),
    };
    first + rest
}

pub fn taproot_candidates(name: &str, staging: Option<&str>, exe_dir: Option<&str>) -> (r: Vec<String>)
    ensures
        texts(r@) == taproot_places(
            name@,
            match staging {
                Some(d) => Some(d@),
                None => None,
            },
            match exe_dir {
                Some(d) => Some(d@),
                None => None,
            },
        ),
{
    let mut out: Vec<String> = Vec::new();
    match staging {
        Some(d) => {
            out.push(join(d, name));
        },
        None => {},
    }
    match exe_dir {
        Some(d) => {
            out.push(join(d, name));
            let lib: String = join(d, "../lib/carrot");
            out.push(join(lib.as_str(), name));
        },
        None => {},
    }
    assert(texts(out@) =~= taproot_places(
        name@,
        match staging {
            Some(d) => Some(d@),
            None => None,
        },
        match exe_dir {
            Some(d) => Some(d@),
            None => None,
        },
    ));
    out
}

/// The first candidate that exists.
pub open spec fn first_there(cands: Seq<String>, there: Seq<bool>) -> Option<int> {
    first_slot(there.take(cands.len() as int), |b: bool| b)
}

fn pick_there(cands: &Vec<String>, there: &Vec<bool>) -> (r: Option<usize>)
    requires
        there@.len() == cands@.len(),
    ensures
        match r {
            Some(k) => first_there(cands@, there@) == Some(k as int) && k < cands@.len(),
            None => first_there(cands@, there@) is None,
        },
{
    let ghost yes = |b: bool| b;
    assert(there@.take(cands@.len() as int) =~= there@);
    for i in 0..there.len()
        invariant
            there@.len() == cands@.len(),
            there@.take(cands@.len() as int) == there@,
            yes == (|b: bool| b),
            forall|j: int| 0 <= j < i ==> !yes(#[trigger] there@[j]),
    {
        if there[i] {
            proof {
                first_slot_found(there@, yes, i as int);
            }
            return Some(i);
        }
    }
    proof {
        first_slot_absent(there@, yes);
    }
    None
}

pub open spec fn taproot_missing(name: Seq<char>, env: Seq<char>) -> Seq<char> {
    name + " not found next to the binary or in ../lib/carrot (set "@ + env + " to a copy of libtaproot.so named "@
        + name + "; dlopen matches by filename)"@
}

/// Where a preloaded library is: the override, else the first candidate that
/// exists. `there` says of each candidate whether it does.
pub fn taproot_lib(
    name: &str,
    env: &str,
    over: Option<String>,
    cands: &Vec<String>,
    there: &Vec<bool>,
) -> (r: Result<String, String>)
    requires
        there@.len() == cands@.len(),
    ensures
        match over {
            Some(p) => r == Ok::<String, String>(p),
            None => match first_there(cands@, there@) {
                Some(k) => r == Ok::<String, String>(cands@[k]),
                None => r matches Err(e) && e@ == taproot_missing(name@, env@),
            },
        },
{
    match over {
        Some(p) => {
            return Ok(p);
        },
        None => {},
    }
    match pick_there(cands, there) {
        Some(k) => Ok(cands[k].clone()),
        None => Err(
            name.to_owned().concat(" not found next to the binary or in ../lib/carrot (set ").concat(env).concat(
                " to a copy of libtaproot.so named ",
            ).concat(name).concat("; dlopen matches by filename)"),
        ),
    }
}

// -- driver discovery --

/// The major number of a device.
pub open spec fn major_spec(dev: u64) -> u32 {
    (((dev >> 32u64) & 0xffff_f000u64) | ((dev >> 8u64) & 0xfffu64)) as u32
}

pub open spec fn minor_spec(dev: u64) -> u32 {
    (((dev >> 12u64) & 0xffff_ff00u64) | (dev & 0xffu64)) as u32
}

/// `rustix::fs::major`: the bits of a device number that hold its major number.
#[verifier::external_body]
fn major(dev: u64) -> (r: u32)
    ensures
        r == major_spec(dev),
{
    rustix::fs::major(dev)
}

/// `rustix::fs::minor`: the bits of a device number that hold its minor number.
#[verifier::external_body]
fn minor(dev: u64) -> (r: u32)
    ensures
        r == minor_spec(dev),
{
    rustix::fs::minor(dev)
}

pub open spec fn driver_link_spec(dev: u64) -> Seq<char> {
    "/sys/dev/char/"@ + digits(major_spec(dev) as nat) + ":"@ + digits(minor_spec(dev) as nat) + "/device/driver"@
}

/// The link that names the kernel driver of a device node.
pub fn driver_link(dev: u64) -> (r: String)
    ensures
        r@ == driver_link_spec(dev),
{
    let major: String = decimal_text(major(dev) as u64);
    let minor: String = decimal_text(minor(dev) as u64);
    "/sys/dev/char/".to_owned().concat(major.as_str()).concat(":").concat(minor.as_str()).concat("/device/driver")
}

/// The kernel driver's name is the last component of what the link points to.
pub fn kernel_driver(dev: u64, target: &str) -> (r: Result<String, String>)
    ensures
        match file_name_spec(target@) {
            Some(n) => r matches Ok(s) && s@ == n,
            None => r matches Err(e) && e@ == driver_link_spec(dev) + ": no driver name"@,
        },
{
    match file_name(target) {
        Some(n) => Ok(n),
        None => Err(driver_link(dev).concat(": no driver name")),
    }
}

/// Which driver libraries serve a kernel driver.
pub open spec fn icd_matches_spec(driver: Seq<char>, file: Seq<char>) -> bool {
    if driver == "i915"@ || driver == "xe"@ {
        occurs(file, "intel"@) && !occurs(file, "hasvk"@)
    } else if driver == "amdgpu"@ || driver == "radeon"@ {
        occurs(file, "radeon"@)
    } else if driver == "nouveau"@ {
        occurs(file, "nouveau"@) || occurs(file, "nvk"@)
    } else {
        occurs(file, driver)
    }
}

pub fn icd_matches(driver: &str, icd_file: &str) -> (r: bool)
    ensures
        r == icd_matches_spec(driver@, icd_file@),
{
    if same_text(driver, "i915") || same_text(driver, "xe") {
        contains_text(icd_file, "intel") && !contains_text(icd_file, "hasvk")
    } else if same_text(driver, "amdgpu") || same_text(driver, "radeon") {
        contains_text(icd_file, "radeon")
    } else if same_text(driver, "nouveau") {
        contains_text(icd_file, "nouveau") || contains_text(icd_file, "nvk")
    } else {
        contains_text(icd_file, driver)
    }
}

/// The entries of a list of manifests separated by colons; empty ones are skipped.
pub fn manifest_entries(list: &str) -> (r: Vec<String>)
    ensures
        texts(r@) == pieces(list@, ':').filter(|p: Seq<char>| p.len() > 0),
{
    let ghost full = |p: Seq<char>| p.len() > 0;
    let all: Vec<String> = split_on(list, ':');
    let mut out: Vec<String> = Vec::new();
    proof {
        reveal(Seq::filter);
        assert(texts(out@) =~= texts(all@).take(0).filter(full));
    }
    for i in 0..all.len()
        invariant
            full == (|p: Seq<char>| p.len() > 0),
            texts(out@) == texts(all@).take(i as int).filter(full),
    {
        let ghost had = texts(out@);
        proof {
            reveal(Seq::filter);
            assert(texts(all@).take(i + 1).drop_last() =~= texts(all@).take(i as int));
            assert(texts(all@).take(i + 1).last() == all@[i as int]@);
        }
        if all[i].as_str().unicode_len() > 0 {
            out.push(all[i].clone());
            assert(texts(out@) =~= had.push(all@[i as int]@));
        }
    }
    assert(texts(all@).take(all@.len() as int) =~= texts(all@));
    out
}

/// Whether a directory entry is a manifest: its extension is `json`.
pub open spec fn manifest_name(name: Seq<char>) -> bool {
    name.len() > 5 && name.skip(name.len() - 5) == ".json"@
}

pub fn is_manifest(name: &str) -> (r: bool)
    ensures
        r == manifest_name(name@),
{
    let n: usize = name.unicode_len();
    if n <= 5 {
        return false;
    }
    assert(name@.subrange(n - 5, n as int) =~= name@.skip(n - 5));
    same_text(name.substring_char(n - 5, n), ".json")
}

/// Where the library of a manifest is.
pub enum Library {
    /// at this path
    At(String),
    /// in the first of these that exists
    Search(Vec<String>),
}

/// Absolute paths stand, paths with directories anchor at the manifest, and a bare
/// name is looked up in the search directories.
pub open spec fn library_spec(anchor: Option<Seq<char>>, lp: Seq<char>) -> Option<Seq<char>> {
    if absolute(lp) {
        Some(lp)
    } else if components_before(lp, lp.len() as int) > 1 {
        Some(
            joined(
                match anchor {
                    Some(d) => d,
                    None => "."@,
                },
                lp,
            ),
        )
    } else {
        None
    }
}

/// The library of a manifest whose directory is `anchor`.
pub fn anchored_library(anchor: Option<String>, lp: &str, search: &Vec<String>) -> (r: Library)
    ensures
        match library_spec(
            match anchor {
                Some(d) => Some(d@),
                None => None,
            },
            lp@,
        ) {
            Some(p) => r matches Library::At(s) && s@ == p,
            None => r matches Library::Search(v) && texts(v@) == texts(search@).map_values(
                |d: Seq<char>| joined(d, lp@),
            ),
        },
{
    if is_absolute(lp) {
        return Library::At(lp.to_owned());
    }
    if component_count(lp) > 1 {
        return match anchor {
            Some(d) => Library::At(join(d.as_str(), lp)),
            None => Library::At(join(".", lp)),
        };
    }
    let ghost under = |d: Seq<char>| joined(d, lp@);
    let mut out: Vec<String> = Vec::new();
    for i in 0..search.len()
        invariant
            under == (|d: Seq<char>| joined(d, lp@)),
            texts(out@) == texts(search@).take(i as int).map_values(under),
    {
        let ghost had = texts(out@);
        out.push(join(search[i].as_str(), lp));
        assert(texts(out@) =~= had.push(joined(search@[i as int]@, lp@)));
        assert(texts(search@).take(i + 1).map_values(under) =~= had.push(joined(search@[i as int]@, lp@)));
    }
    assert(texts(search@).take(search@.len() as int) =~= texts(search@));
    Library::Search(out)
}

/// The library a manifest at `manifest` names by `lp`.
pub fn manifest_library(manifest: &str, lp: &str, search: &Vec<String>) -> (r: Library)
    ensures
        match library_spec(parent_spec(manifest@), lp@) {
            Some(p) => r matches Library::At(s) && s@ == p,
            None => r matches Library::Search(v) && texts(v@) == texts(search@).map_values(
                |d: Seq<char>| joined(d, lp@),
            ),
        },
{
    anchored_library(parent(manifest), lp, search)
}

/// The library of a manifest with this content; none when the manifest names none.
pub fn resolve_manifest(manifest: &str, content: &str, search: &Vec<String>) -> (r: Option<Library>)
    ensures
        match json_text_at(content@, "ICD"@, "library_path"@) {
            None => r is None,
            Some(lp) => match library_spec(parent_spec(manifest@), lp) {
                Some(p) => r matches Some(Library::At(s)) && s@ == p,
                None => r matches Some(Library::Search(v)) && texts(v@) == texts(search@).map_values(
                    |d: Seq<char>| joined(d, lp),
                ),
            },
        },
{
    match json_string(content, "ICD", "library_path") {
        None => None,
        Some(lp) => Some(manifest_library(manifest, lp.as_str(), search)),
    }
}

/// The library that is there: a fixed path always, else the first that exists.
pub fn found_library(lib: &Library, there: &Vec<bool>) -> (r: Option<String>)
    requires
        lib matches Library::Search(v) ==> there@.len() == v@.len(),
    ensures
        match lib {
            Library::At(p) => r == Some(*p),
            Library::Search(v) => match first_there(v@, there@) {
                Some(k) => r == Some(v@[k]),
                None => r is None,
            },
        },
{
    match lib {
        Library::At(p) => Some(p.clone()),
        Library::Search(v) => match pick_there(v, there) {
            Some(k) => Some(v[k].clone()),
            None => None,
        },
    }
}

/// The usual library directories.
pub open spec fn usual_dirs() -> Seq<Seq<char>> {
    seq![
        "/usr/lib"@,
        "/usr/lib64"@,
        "/usr/lib/x86_64-linux-gnu"@,
        "/usr/local/lib"@,
        "/lib"@,
        "/lib64"@,
        "/run/opengl-driver/lib"@,
    ]
}

/// The directories a bare name is looked up in: the environment's list first.
pub fn lib_search_dirs(list: Option<&str>) -> (r: Vec<String>)
    ensures
        texts(r@) == (match list {
            Some(l) => pieces(l@, ':'),
            None => Seq::empty(),
        }) + usual_dirs(),
{
    let mut dirs: Vec<String> = match list {
        Some(l) => split_on(l, ':'),
        None => Vec::new(),
    };
    let ghost had = texts(dirs@);
    assert(list is None ==> had =~= Seq::<Seq<char>>::empty());
    dirs.push("/usr/lib".to_owned());
    dirs.push("/usr/lib64".to_owned());
    dirs.push("/usr/lib/x86_64-linux-gnu".to_owned());
    dirs.push("/usr/local/lib".to_owned());
    dirs.push("/lib".to_owned());
    dirs.push("/lib64".to_owned());
    dirs.push("/run/opengl-driver/lib".to_owned());
    assert(texts(dirs@) =~= had + usual_dirs());
    dirs
}

/// Whether a list already holds a path.
pub open spec fn listed(out: Seq<Seq<char>>, p: Seq<char>) -> bool {
    exists|i: int| 0 <= i < out.len() && same_path_spec(#[trigger] out[i], p)
}

/// The libraries in discovery order, each path once.
pub open spec fn distinct(found: Seq<Option<String>>) -> Seq<Seq<char>>
    decreases found.len(),
{
    if found.len() == 0 {
        Seq::empty()
    } else {
        let front = distinct(found.drop_last());
        match found.last() {
            Some(p) => if listed(front, p@) { front } else { front.push(p@) },
            None => front,
        }
    }
}

fn is_listed(out: &Vec<String>, p: &str) -> (r: bool)
    ensures
        r == listed(texts(out@), p@),
{
    for i in 0..out.len()
        invariant
            forall|j: int| 0 <= j < i ==> !same_path_spec(#[trigger] texts(out@)[j], p@),
    {
        if same_path(out[i].as_str(), p) {
            assert(same_path_spec(texts(out@)[i as int], p@));
            return true;
        }
    }
    false
}

/// Every driver library that was found, in discovery order, each once.
pub fn all_icd_libraries(found: &Vec<Option<String>>) -> (r: Vec<String>)
    ensures
        texts(r@) == distinct(found@),
{
    let mut out: Vec<String> = Vec::new();
    assert(texts(out@) =~= distinct(found@.take(0)));
    for i in 0..found.len()
        invariant
            texts(out@) == distinct(found@.take(i as int)),
    {
        let ghost had = texts(out@);
        proof {
            assert(found@.take(i + 1).drop_last() =~= found@.take(i as int));
        }
        match &found[i] {
            None => {},
            Some(p) => {
                if !is_listed(&out, p.as_str()) {
                    out.push(p.clone());
                    assert(texts(out@) =~= had.push(p@));
                }
            },
        }
    }
    assert(found@.take(found@.len() as int) =~= found@);
    out
}

/// No path is listed twice.
pub proof fn libraries_are_distinct(found: Seq<Option<String>>, i: int, j: int)
    requires
        0 <= i < j < distinct(found).len(),
    ensures
        !same_path_spec(distinct(found)[i], distinct(found)[j]),
    decreases found.len(),
{
    let front = distinct(found.drop_last());
    if j < front.len() {
        libraries_are_distinct(found.drop_last(), i, j);
    } else {
        assert(distinct(found)[i] == front[i]);
    }
}

/// The file part of a path, empty where it has none.
pub open spec fn file_of(p: Seq<char>) -> Seq<char> {
    match file_name_spec(p) {
        Some(n) => n,
        None => Seq::empty(),
    }
}

fn file_part(p: &str) -> (r: String)
    ensures
        r@ == file_of(p@),
{
    match file_name(p) {
        Some(n) => n,
        None => {
            let e: String = "".to_owned();
            proof {
                reveal_strlit("");
            }
            assert(e@ =~= Seq::<char>::empty());
            e
        },
    }
}

pub open spec fn serves(driver: Seq<char>) -> spec_fn(String) -> bool {
    |f: String| icd_matches_spec(driver, f@)
}

/// Texts with a comma between each two.
pub open spec fn listing(all: Seq<Seq<char>>) -> Seq<char>
    decreases all.len(),
{
    if all.len() == 0 {
        Seq::empty()
    } else if all.len() == 1 {
        all[0]
    } else {
        listing(all.drop_last()) + ", "@ + all.last()
    }
}

fn list_files(all: &Vec<String>) -> (r: String)
    ensures
        r@ == listing(texts(all@)),
{
    let mut out: String = "".to_owned();
    proof {
        reveal_strlit("");
        assert(out@ =~= listing(texts(all@).take(0)));
    }
    for i in 0..all.len()
        invariant
            out@ == listing(texts(all@).take(i as int)),
    {
        proof {
            assert(texts(all@).take(i + 1).drop_last() =~= texts(all@).take(i as int));
            assert(texts(all@).take(i + 1).last() == all@[i as int]@);
        }
        if i > 0 {
            out.append(", ");
        }
        let ghost before = out@;
        out.append(all[i].as_str());
        if i == 0 {
            assert(before =~= Seq::<char>::empty());
            assert(texts(all@).take(1)[0] == all@[0]@);
            assert(out@ =~= all@[0]@);
        }
    }
    assert(texts(all@).take(all@.len() as int) =~= texts(all@));
    out
}

pub open spec fn no_icd_message(driver: Seq<char>, files: Seq<Seq<char>>) -> Seq<char> {
    "no vulkan icd for drm driver "@ + driver + " (found: "@ + listing(files) + ")"@
}

/// The library for a kernel driver: the first whose file name in lower case serves
/// it. The file names stand in the message when none does.
pub fn pick_icd(driver: &str, files: &Vec<String>, lowered: &Vec<String>) -> (r: Result<usize, RenderError>)
    ensures
        match first_slot(lowered@, serves(driver@)) {
            Some(k) => r matches Ok(i) && i == k,
            None => r matches Err(RenderError::Load(e)) && e@ == no_icd_message(driver@, texts(files@)),
        },
{
    for i in 0..lowered.len()
        invariant
            forall|j: int| 0 <= j < i ==> !serves(driver@)(#[trigger] lowered@[j]),
    {
        if icd_matches(driver, lowered[i].as_str()) {
            proof {
                first_slot_found(lowered@, serves(driver@), i as int);
            }
            return Ok(i);
        }
    }
    proof {
        first_slot_absent(lowered@, serves(driver@));
    }
    let list: String = list_files(files);
    Err(
        RenderError::Load(
            "no vulkan icd for drm driver ".to_owned().concat(driver).concat(" (found: ").concat(
                list.as_str(),
            ).concat(")"),
        ),
    )
}

pub open spec fn serves_path(driver: Seq<char>) -> spec_fn(String) -> bool {
    |p: String| icd_matches_spec(driver, lower_spec(file_of(p@)))
}

/// The library for a kernel driver among all that were found.
pub fn choose_icd(driver: &str, all: &Vec<String>) -> (r: Result<usize, RenderError>)
    ensures
        match first_slot(all@, serves_path(driver@)) {
            Some(k) => r matches Ok(i) && i == k,
            None => r matches Err(RenderError::Load(e)) && e@ == no_icd_message(
                driver@,
                texts(all@).map_values(|p: Seq<char>| file_of(p)),
            ),
        },
{
    let ghost part = |p: Seq<char>| file_of(p);
    let mut files: Vec<String> = Vec::new();
    let mut lowered: Vec<String> = Vec::new();
    for i in 0..all.len()
        invariant
            part == (|p: Seq<char>| file_of(p)),
            texts(files@) == texts(all@).take(i as int).map_values(part),
            lowered@.len() == i,
            forall|j: int| 0 <= j < i ==> (#[trigger] lowered@[j])@ == lower_spec(file_of(all@[j]@)),
    {
        let ghost had = texts(files@);
        let file: String = file_part(all[i].as_str());
        lowered.push(lower(file.as_str()));
        files.push(file);
        assert(texts(files@) =~= had.push(file_of(all@[i as int]@)));
        assert(texts(all@).take(i + 1).map_values(part) =~= had.push(file_of(all@[i as int]@)));
    }
    proof {
        assert(texts(all@).take(all@.len() as int) =~= texts(all@));
        same_first(lowered@, serves(driver@), all@, serves_path(driver@));
    }
    pick_icd(driver, &files, &lowered)
}

proof fn same_first(a: Seq<String>, p: spec_fn(String) -> bool, b: Seq<String>, q: spec_fn(String) -> bool)
    requires
        a.len() == b.len(),
        forall|j: int| 0 <= j < a.len() ==> p(#[trigger] a[j]) == q(b[j]),
    ensures
        first_slot(a, p) == first_slot(b, q),
    decreases a.len(),
{
    if a.len() > 0 {
        same_first(a.drop_last(), p, b.drop_last(), q);
    }
}

} // verus!
