use carrot::render::loader::{
    all_icd_libraries, choose_icd, component_count, driver_link, found_library, icd_matches, is_manifest, join,
    kernel_driver, lib_search_dirs, manifest_entries, manifest_library, pick_icd, resolve_manifest, taproot_candidates,
    taproot_lib, Library, TlsSurplus, SURPLUS_SIZE,
};
use carrot::render::renderer::{
    copy_frame, pipe_info, read_frame, readback, record_ops, record_upload, render, render_frame, transition_sampled, Cmd, FrameTarget, Handover,
    ImageLayout, OpKind, Pipe, PrePass, RenderOp, Texture,
};
use carrot::render::resources::{
    check_halves, check_scanout, host_ptr_fits, image_bytes, import_type, pixel_at, plane_layouts, Answer, Claim, Doomed, Frame, Known, Next, Origin,
    Renderer, TexBuild, UPLOAD_SLOTS,
};
use carrot::render::vulkan::{
    find_memory_type, required_ext, scanout_modifiers, select_device, DrmNode, ModifierProps, PhysicalDevice, RenderError,
    API_1_3, FEATURE_COLOR_ATTACHMENT, MEMORY_EXPORTABLE, QUEUE_GRAPHICS, REQUIRED,
};

fn texts(v: &[&str]) -> Vec<String> {
    v.iter().map(|s| s.to_string()).collect()
}

// loader

#[test]
fn manifest_paths_resolve_by_shape() {
    let m = "/usr/share/vulkan/icd.d/x.json";
    let search = texts(&["/lib/here"]);
    let at = |lp: &str, there: bool| {
        let lib = manifest_library(m, lp, &search);
        let there = match &lib {
            Library::At(_) => Vec::new(),
            Library::Search(v) => vec![there; v.len()],
        };
        found_library(&lib, &there)
    };
    assert_eq!(at("/abs/libvk.so", false), Some("/abs/libvk.so".to_owned()));
    assert_eq!(at("../lib/libvk.so", false), Some("/usr/share/vulkan/icd.d/../lib/libvk.so".to_owned()));
    // a bare soname walks the search dirs, never the manifest dir
    assert_eq!(at("libGLX_test.so.0", true), Some("/lib/here/libGLX_test.so.0".to_owned()));
    assert_eq!(at("libGLX_absent.so.0", false), None);
}

#[test]
fn manifests_name_their_library() {
    let doc = r#"{"file_format_version":"1.0.0","ICD":{"library_path":"/usr/lib/libvulkan_intel.so","api_version":"1.3"}}"#;
    let lib = resolve_manifest("/etc/vulkan/icd.d/intel.json", doc, &Vec::new());
    assert!(matches!(lib, Some(Library::At(p)) if p == "/usr/lib/libvulkan_intel.so"));
    assert!(resolve_manifest("/etc/x.json", "{\"ICD\":{}}", &Vec::new()).is_none());
    assert!(resolve_manifest("/etc/x.json", "{\"ICD\":{\"library_path\":7}}", &Vec::new()).is_none());
    assert!(resolve_manifest("/etc/x.json", "not json", &Vec::new()).is_none());
}

#[test]
fn drivers_find_their_library() {
    assert!(icd_matches("i915", "libvulkan_intel.so"));
    assert!(!icd_matches("xe", "libvulkan_intel_hasvk.so"));
    assert!(icd_matches("amdgpu", "libvulkan_radeon.so"));
    assert!(icd_matches("nouveau", "libvulkan_nvk.so"));
    assert!(icd_matches("virtio_gpu", "libvulkan_virtio_gpu.so"));
    let all = texts(&["/usr/lib/libvulkan_lvp.so", "/usr/lib/LibVulkan_Intel.so"]);
    assert!(matches!(choose_icd("i915", &all), Ok(1)), "file names count in lower case");
    match choose_icd("msm", &all) {
        Err(e) => assert_eq!(
            e.message(),
            "loading the vulkan loader failed: no vulkan icd for drm driver msm (found: libvulkan_lvp.so, LibVulkan_Intel.so)"
        ),
        Ok(_) => panic!("a library was picked"),
    }
    assert!(pick_icd("i915", &texts(&["A"]), &texts(&["intel"])).is_ok());
}

#[test]
fn device_numbers_name_their_driver() {
    // 226:128
    let dev = (226u64 << 8) | 128;
    assert_eq!(driver_link(dev), "/sys/dev/char/226:128/device/driver");
    assert_eq!(kernel_driver(dev, "../../../bus/pci/drivers/xe"), Ok("xe".to_owned()));
    assert_eq!(
        kernel_driver(dev, "/"),
        Err("/sys/dev/char/226:128/device/driver: no driver name".to_owned())
    );
}

#[test]
fn libraries_are_listed_once() {
    let found = vec![
        Some("/usr/lib/a.so".to_owned()),
        None,
        Some("/usr/lib//a.so".to_owned()),
        Some("/usr/lib/b.so".to_owned()),
    ];
    assert_eq!(all_icd_libraries(&found), texts(&["/usr/lib/a.so", "/usr/lib/b.so"]));
}

#[test]
fn preloads_are_looked_for_in_order() {
    let c = taproot_candidates("libc.so.6", Some("/stage"), Some("/opt/bin"));
    assert_eq!(
        c,
        texts(&["/stage/libc.so.6", "/opt/bin/libc.so.6", "/opt/bin/../lib/carrot/libc.so.6"])
    );
    assert_eq!(taproot_lib("libc.so.6", "CARROT_LIBC", None, &c, &vec![false, true, true]), Ok(c[1].clone()));
    assert_eq!(
        taproot_lib("libc.so.6", "CARROT_LIBC", Some("/mine".to_owned()), &c, &vec![true, true, true]),
        Ok("/mine".to_owned())
    );
    assert!(taproot_lib("libc.so.6", "CARROT_LIBC", None, &c, &vec![false, false, false]).is_err());
}

#[test]
fn lists_of_paths_split_on_colons() {
    assert_eq!(manifest_entries("/a.json::/b.json"), texts(&["/a.json", "/b.json"]));
    assert_eq!(lib_search_dirs(Some("/x:/y"))[..2], texts(&["/x", "/y"])[..]);
    assert_eq!(lib_search_dirs(None)[0], "/usr/lib");
    assert!(is_manifest("intel.json"));
    assert!(!is_manifest(".json"));
    assert_eq!(component_count("../lib/libvk.so"), 3);
    assert_eq!(join("/a/", "b"), "/a/b");
}

#[test]
fn thread_local_blocks_do_not_overlap() {
    let mut s = TlsSurplus::new();
    let a = s.alloc_static_tls(10, 8).unwrap();
    let b = s.alloc_static_tls(32, 16).unwrap();
    assert_eq!(b % 16, 0);
    assert!(a + 10 <= b || b + 32 <= a);
    assert!(s.alloc_static_tls(SURPLUS_SIZE, 8).is_none());
}

// device selection

fn gpu(major: i64, minor: i64) -> PhysicalDevice {
    PhysicalDevice {
        exts: Ok((0..REQUIRED).map(required_ext).chain(["VK_EXT_physical_device_drm"]).map(str::to_owned).collect()),
        api_version: API_1_3,
        primary: DrmNode { present: false, major: 0, minor: 0 },
        render: DrmNode { present: true, major, minor },
        families: vec![0, QUEUE_GRAPHICS],
    }
}

#[test]
fn the_device_of_the_card_is_taken() {
    let rdev = (226u64 << 8) | 129;
    assert!(matches!(select_device(&vec![gpu(226, 128), gpu(226, 129)], rdev), Ok((1, 1))));
    assert!(matches!(select_device(&vec![gpu(226, 128)], rdev), Err(RenderError::NoDevice)));
    let mut headless = gpu(226, 129);
    headless.families = vec![0];
    assert!(matches!(select_device(&vec![headless], rdev), Err(RenderError::NoGraphicsQueue)));
    let mut poor = gpu(226, 129);
    poor.exts = Ok(vec!["VK_EXT_physical_device_drm".to_owned()]);
    assert!(matches!(select_device(&vec![poor], rdev), Err(RenderError::MissingExt(_))));
    let mut broken = gpu(226, 129);
    broken.exts = Err(-4);
    assert!(matches!(select_device(&vec![broken], rdev), Err(RenderError::Vk(-4))));
}

#[test]
fn errors_are_described() {
    assert_eq!(RenderError::Vk(-4).message(), "vulkan error: ERROR_DEVICE_LOST");
    assert_eq!(RenderError::MissingExt("VK_EXT_x").message(), "the device lacks VK_EXT_x");
    assert_eq!(RenderError::NoDevice.message(), "no vulkan device matches this drm node");
}

#[test]
fn modifiers_must_render_and_export() {
    let p = |modifier, features, external| ModifierProps { modifier, planes: 1, features, external };
    let props = vec![
        p(1, FEATURE_COLOR_ATTACHMENT, Some(MEMORY_EXPORTABLE)),
        p(2, 0, Some(MEMORY_EXPORTABLE)),
        p(3, FEATURE_COLOR_ATTACHMENT, None),
    ];
    assert_eq!(scanout_modifiers(&props), vec![(1, 1)]);
}

#[test]
fn memory_types_need_every_flag() {
    let types = vec![1, 6, 7];
    assert!(matches!(find_memory_type(&types, 0b110, 6), Ok(1)));
    assert!(matches!(find_memory_type(&types, 0b100, 6), Ok(2)));
    assert!(matches!(find_memory_type(&types, 0b001, 6), Err(RenderError::NoMemoryType)));
}

// recording

fn op(kind: OpKind, opaque: bool, fades: bool) -> RenderOp {
    RenderOp { kind, opaque, fades, view: 11, other: 12 }
}

#[test]
fn opaque_draws_do_not_blend() {
    assert_eq!(op(OpKind::Fill, true, false).pipe(), Pipe::FillOpaque);
    assert_eq!(op(OpKind::Fill, true, true).pipe(), Pipe::FillBlend);
    assert_eq!(op(OpKind::Tex, true, false).pipe(), Pipe::TexOpaque);
    assert_eq!(op(OpKind::Tex, false, false).pipe(), Pipe::TexBlend);
    assert_eq!(op(OpKind::Tex, true, true).pipe(), Pipe::TexBlend);
    assert!(!pipe_info(Pipe::TexOpaque).blend);
    assert!(pipe_info(Pipe::TexRBlend).blend);
}

#[test]
fn every_op_draws_once() {
    let mut cmds = Vec::new();
    record_ops(&mut cmds, &vec![op(OpKind::Fill, true, false), op(OpKind::Xfade, false, false)]);
    assert_eq!(cmds.iter().filter(|c| matches!(c, Cmd::Draw)).count(), 2);
    assert!(cmds.iter().any(|c| matches!(c, Cmd::PushViews { view: 11, other: Some(12), .. })));
}

#[test]
fn frames_take_the_target_and_hand_it_back() {
    let t = FrameTarget { image: 5, view: 6, width: 8, height: 4, undefined: true };
    let cmds = render(&t, true, &vec![op(OpKind::Fill, true, false)]);
    let first = match &cmds[0] {
        Cmd::Barrier(b) => b,
        _ => panic!("the target was not taken"),
    };
    assert_eq!((first.image, first.from), (5, ImageLayout::Undefined));
    let last = match cmds.last().unwrap() {
        Cmd::Barrier(b) => b,
        _ => panic!("the target was not handed back"),
    };
    assert_eq!(last.handover, Handover::Release);
    assert!(cmds.iter().any(|c| matches!(c, Cmd::BeginPass { view: 6, width: 8, height: 4, clear: true })));
}

#[test]
fn uploads_come_before_the_pass_that_samples_them() {
    let mut tex = Texture { image: 1, memory: 2, view: 3, width: 8, height: 4, undefined: true, uid: 9 };
    let up = tex.stage_upload(20, 21);
    assert!(up.undefined && up.owned);
    assert!(!tex.undefined);
    let mut scratch = Texture { image: 30, memory: 31, view: 32, width: 8, height: 4, undefined: true, uid: 10 };
    let pass = PrePass::new(&mut scratch, true, vec![op(OpKind::Tex, true, false)]);
    let t = FrameTarget { image: 5, view: 6, width: 8, height: 4, undefined: false };
    let cmds = render_frame(&vec![up], &vec![pass], &t, false, &Vec::new());
    let copy = cmds.iter().position(|c| matches!(c, Cmd::CopyIn { buffer: 20, image: 1, .. })).unwrap();
    let pre = cmds.iter().position(|c| matches!(c, Cmd::BeginPass { view: 32, .. })).unwrap();
    let main = cmds.iter().position(|c| matches!(c, Cmd::BeginPass { view: 6, .. })).unwrap();
    assert!(copy < pre && pre < main);
}

#[test]
fn copies_move_whole_frames() {
    let t = FrameTarget { image: 5, view: 6, width: 8, height: 4, undefined: false };
    let cmds = copy_frame(40, 16, 8, &t);
    assert!(cmds
        .iter()
        .any(|c| matches!(c, Cmd::CopyIn { buffer: 40, offset: 16, row_texels: 8, image: 5, width: 8, height: 4 })));
    let cmds = read_frame(&Vec::new(), &Vec::new(), 5, 6, 8, 4, &Vec::new());
    assert!(matches!(cmds.last(), Some(Cmd::CopyOut { image: 5, width: 8, height: 4 })));
    assert_eq!(transition_sampled(7).to, ImageLayout::ShaderRead);
    assert!(readback(&t).iter().any(|c| matches!(c, Cmd::CopyOut { image: 5, width: 8, height: 4 })));
    let tex = Texture { image: 1, memory: 2, view: 3, width: 8, height: 4, undefined: true, uid: 9 };
    let cmds = record_upload(&tex, 50, 4, 8);
    assert!(matches!(cmds[0], Cmd::Barrier(b) if b.from == ImageLayout::Undefined));
    assert!(cmds.iter().any(|c| matches!(c, Cmd::CopyIn { buffer: 50, offset: 4, row_texels: 8, image: 1, .. })));
}

// resources

#[test]
fn frames_give_back_what_they_own() {
    let mut r = Renderer::new();
    let mut tex = Texture { image: 1, memory: 2, view: 3, width: 8, height: 4, undefined: true, uid: 9 };
    let own = tex.stage_upload(20, 21);
    let pool = tex.external_pre_upload(22, 0, 8);
    let doomed = r.recycle_frame(Frame { cb: 4, fence: 5, waits: vec![6], staging: vec![own, pool] });
    assert_eq!(doomed, vec![Doomed::Fence(5), Doomed::Semaphore(6), Doomed::Buffer(20), Doomed::Memory(21)]);
    assert_eq!(r.take_cb(), Some(4));
    assert_eq!(r.take_cb(), None);
    assert!(r.next_tex_uid() != r.next_tex_uid());
}

#[test]
fn upload_slots_are_few_and_grow_to_fit() {
    let mut r = Renderer::new();
    assert!(matches!(r.claim_slot(&Vec::new()), Claim::Grow));
    for i in 0..UPLOAD_SLOTS {
        assert_eq!(r.grow_slots(), i);
    }
    assert!(matches!(r.claim_slot(&vec![Ok(false), Ok(true), Ok(true)]), Claim::Use(1)));
    assert!(matches!(r.claim_slot(&vec![Ok(false), Ok(false), Ok(false)]), Claim::Busy));
    assert!(matches!(r.claim_slot(&vec![Err(-4), Ok(true), Ok(true)]), Claim::Failed(-4)));
    assert_eq!(r.fit_slot(0, 100), (false, None));
    r.slot_ready(0, 100, 50, 51);
    assert_eq!(r.fit_slot(0, 80), (true, None));
    assert_eq!(r.fit_slot(0, 200), (false, Some((50, 51))));
}

#[test]
fn the_capture_target_is_rebuilt_for_another_size() {
    let mut r = Renderer::new();
    assert_eq!(r.ensure_capture(8, 4), (false, None));
    r.capture_built(8, 4);
    assert_eq!(r.ensure_capture(8, 4), (true, None));
    assert_eq!(r.ensure_capture(8, 5), (false, Some((8, 4))));
    assert_eq!(r.ensure_capture(8, 4), (false, None), "the old one was given up");
}

#[test]
fn the_test_picture_has_two_halves() {
    let mut px = Vec::new();
    for _ in 0..256 {
        px.extend([0u8, 0, 255, 255].repeat(128));
        px.extend([255u8, 0, 0, 255].repeat(128));
    }
    assert!(check_halves(&px, 1024).is_ok());
    assert!(check_scanout(&px, 1024).is_ok());
    let black = vec![0u8; 1024 * 256];
    assert_eq!(check_halves(&black, 1024), Err("left half should be red, got (0, 0, 0, 0)".to_owned()));
    assert!(check_scanout(&black, 1024).is_err());
}

#[test]
fn imports_are_remembered_even_when_refused() {
    let mut r = Renderer::new();
    assert!(matches!(r.host_buffer_for(1), Known::Never));
    assert_eq!(r.remember_import(1, Some((60, 61))), Some(60));
    assert_eq!(r.remember_import(2, None), None);
    assert!(matches!(r.host_buffer_for(1), Known::Imported(60)));
    assert!(matches!(r.host_buffer_for(2), Known::Refused));
    let gone = r.prune_host_imports(&vec![false, true]);
    assert_eq!(gone, vec![Doomed::Buffer(60), Doomed::Memory(61)]);
    assert!(matches!(r.host_buffer_for(1), Known::Never));
}

#[test]
fn host_memory_is_taken_in_whole_pages() {
    assert!(host_ptr_fits(0x1000, 0x2000, 0x1000));
    assert!(!host_ptr_fits(0x1001, 0x2000, 0x1000));
    assert!(!host_ptr_fits(0x1000, 0x2001, 0x1000));
    assert_eq!(import_type(0b110, 0b100, 10, 20), Some(2));
    assert_eq!(import_type(0b010, 0b100, 10, 20), None);
    assert_eq!(import_type(0b110, 0b100, 30, 20), None);
    assert_eq!(image_bytes(3, 2), 24);
}

#[test]
fn failed_textures_free_what_was_made() {
    let mut b = TexBuild::start(Origin::Upload, 8, 4, false);
    assert!(matches!(b.step(&vec![1], 7, Answer::Image { image: 1, bits: 1 }), Next::Allocate { mem_type: 0 }));
    assert!(matches!(b.step(&vec![1], 7, Answer::Memory(2)), Next::Bind { image: 1, memory: 2 }));
    match b.step(&vec![1], 7, Answer::Failed(-1)) {
        Next::Abort { mut doomed, error } => {
            doomed.sort_by_key(|d| matches!(d, Doomed::Memory(_)));
            assert_eq!(doomed, vec![Doomed::Image(1), Doomed::Memory(2)]);
            assert!(matches!(error, RenderError::Vk(-1)));
        }
        _ => panic!("the build went on"),
    }
}

#[test]
fn textures_are_built_step_by_step() {
    let mut b = TexBuild::start(Origin::Upload, 8, 4, false);
    b.step(&vec![1], 7, Answer::Image { image: 1, bits: 1 });
    b.step(&vec![1], 7, Answer::Memory(2));
    assert!(matches!(b.step(&vec![1], 7, Answer::Done), Next::CreateView { image: 1, pin_alpha: false }));
    match b.step(&vec![1], 7, Answer::View(3)) {
        Next::Finish(t) => assert_eq!((t.image, t.memory, t.view, t.width, t.height, t.uid), (1, 2, 3, 8, 4, 7)),
        _ => panic!("the texture is not finished"),
    }
}

#[test]
fn imported_planes_share_one_image() {
    assert!(matches!(plane_layouts(&vec![(0, 32), (128, 16)]), Ok(v) if v == vec![(0, 32), (128, 16)]));
    assert!(matches!(plane_layouts(&Vec::new()), Err(RenderError::Load(e)) if e == "dmabuf with no planes"));
    assert_eq!(pixel_at(&vec![0, 0, 0, 0, 1, 2, 3, 4], 8, 1, 0), (1, 2, 3, 4));
}
