use ninja_to_soong::graph::{Edge, EdgeKind, TargetGraph};
use ninja_to_soong::mesa::Mesa3DPanVK;
use ninja_to_soong::module::{Module, Prop};
use ninja_to_soong::project::Project;

fn strs(v: &[&str]) -> Vec<String> {
    v.iter().map(|s| s.to_string()).collect()
}

fn flags(m: &Module, name: &str) -> Vec<String> {
    match m.get_prop(name) {
        Some(Prop::VecStr(v)) => v.clone(),
        _ => panic!("no list property {}", name),
    }
}

#[test]
fn names_and_paths() {
    let p = Mesa3DPanVK::new("/src/mesa");
    assert_eq!(p.get_name(), "mesa3d-25xx");
    assert_eq!(p.get_android_path(), "external/mesa3d-25xx");
    assert_eq!(p.get_test_path("tests"), "tests/mesa3d-25xx");
    assert_eq!(p.get_test_path("tests/"), "tests/mesa3d-25xx");
}

#[test]
fn cflag_define_and_link_filters() {
    let p = Mesa3DPanVK::default();
    assert!(p.filter_cflag("-O2"));
    assert!(!p.filter_cflag("'-DX'"));
    assert!(!p.filter_cflag("-fno-rtti"));
    assert!(p.filter_define("ANYTHING"));
    assert!(p.filter_link_flag("-Wl,-Bsymbolic"));
    assert!(!p.filter_link_flag("-Wl,--as-needed"));
    assert!(!p.filter_gen_header("src/x.h"));
    assert!(p.filter_lib("libz"));
}

#[test]
fn include_filter() {
    let p = Mesa3DPanVK::new("/src/mesa");
    assert!(p.filter_include("/src/mesa/include"));
    assert!(!p.filter_include("/src/mesa/include/android_stub"));
    assert!(!p.filter_include("/src/mesa/subprojects/libdrm/include"));
    assert!(p.filter_include("/src/mesa/include/not_android_stub"));
}

#[test]
fn target_filter() {
    let p = Mesa3DPanVK::default();
    assert!(p.filter_target("src/util/libmesa_util.a"));
    assert!(!p.filter_target("src/util/foo.o"));
    assert!(!p.filter_target("src/util/foo.def"));
    assert!(!p.filter_target("subprojects/libdrm/libdrm.so"));
    assert!(!p.filter_target("src/android_stub/libstub.so"));
}

#[test]
fn library_mapping() {
    let p = Mesa3DPanVK::default();
    assert_eq!(p.map_lib("src/android_stub/libhardware.so"), Some("libhardware".to_string()));
    assert_eq!(p.map_lib("subprojects/zlib/libz.so"), Some("libz".to_string()));
    assert_eq!(p.map_lib("src/util/libmesa_util.a"), None);
    assert_eq!(p.map_lib("srcx/libfoo.so.1"), Some("libfoo.so".to_string()));
}

#[test]
fn extension_of_vulkan_driver() {
    let p = Mesa3DPanVK::default();
    let m = Module::new("cc_library_shared").add_prop("cflags", Prop::VecStr(strs(&["-O2"])));
    let m = p.extend_module("src/panfrost/vulkan/libvulkan_panfrost.so", m).unwrap();
    assert!(matches!(m.get_prop("soc_specific"), Some(Prop::Bool(true))));
    assert!(matches!(m.get_prop("relative_install_path"), Some(Prop::Str(s)) if s == "hw"));
    assert_eq!(flags(&m, "defaults"), strs(&["mesa3d-25xx-defaults"]));
    assert_eq!(flags(&m, "cflags").len(), 10);
    assert_eq!(flags(&m, "cflags")[0], "-O2");
    assert_eq!(flags(&m, "shared_libs"), strs(&["libnativewindow", "libui"]));
    assert_eq!(flags(&m, "srcs"), Vec::<String>::new());
}

#[test]
fn extension_of_static_libraries() {
    let p = Mesa3DPanVK::default();
    let m = p.extend_module("src/vulkan/runtime/libvulkan_lite_runtime.a", Module::new("cc_library_static")).unwrap();
    assert_eq!(flags(&m, "header_libs"), strs(&["hwvulkan_headers", "libdrm_headers"]));
    assert_eq!(flags(&m, "cflags").last().unwrap(), "-Wno-unreachable-code-loop-increment");
    assert_eq!(flags(&m, "shared_libs"), strs(&["libsync", "libnativewindow"]));
    assert!(m.get_prop("soc_specific").is_none());
    let m = p.extend_module("src/util/u_gralloc/lib_mesa_u_gralloc.a", Module::new("cc_library_static")).unwrap();
    assert_eq!(flags(&m, "srcs"), strs(&["src/util/u_gralloc/u_gralloc_imapper5_api.cpp"]));
    assert_eq!(flags(&m, "cflags").last().unwrap(), "-DUSE_IMAPPER4_METADATA_API");
    assert_eq!(flags(&m, "shared_libs"), strs(&["libui"]));
    let m = p.extend_module("src/gbm/libgbm_mesa.so", Module::new("cc_library_shared")).unwrap();
    assert_eq!(flags(&m, "export_include_dirs"), strs(&["src/gbm/main"]));
    let m = p.extend_module("src/compiler/nir/libnir.a", Module::new("cc_library_static")).unwrap();
    assert_eq!(flags(&m, "cflags").last().unwrap(), "-Wno-bool-conversion");
}

#[test]
fn generated_dependencies_outside_subprojects() {
    let p = Mesa3DPanVK::default();
    let deps = strs(&["src/a.h", "subprojects/libdrm/b.h", "subprojectsx/c.h"]);
    assert_eq!(p.own_gen_deps(&deps), strs(&["src/a.h", "subprojectsx/c.h"]));
}

#[test]
fn defaults_drop_pthread() {
    let p = Mesa3DPanVK::default();
    let m = Module::new("cc_library_shared").add_prop("cflags", Prop::VecStr(strs(&["-O2", "-pthread", "-g"])));
    let d = p.defaults_module(&m);
    assert_eq!(d.kind, "cc_defaults");
    assert!(matches!(d.get_prop("name"), Some(Prop::Str(s)) if s == "mesa3d-25xx-defaults"));
    assert_eq!(flags(&d, "cflags"), strs(&["-O2", "-g"]));
    let d = p.defaults_module(&Module::new("x"));
    assert_eq!(flags(&d, "cflags"), Vec::<String>::new());
}

fn e(output: &str, kind: EdgeKind, inputs: &[&str]) -> Edge {
    Edge {
        output: output.to_string(),
        kind,
        inputs: strs(inputs),
        implicit: Vec::new(),
        order_only: Vec::new(),
        cflags: Vec::new(),
        defines: Vec::new(),
        includes: Vec::new(),
        link_flags: Vec::new(),
    }
}

#[test]
fn whole_package() {
    let p = Mesa3DPanVK::default();
    let targets = p.targets();
    assert_eq!(targets.len(), 7);
    let mut edges = Vec::new();
    for (i, (out, _)) in targets.iter().enumerate() {
        let obj = format!("obj{}.o", i);
        edges.push(e(out, EdgeKind::Link, &[obj.as_str()]));
        let mut c = e(&obj, EdgeKind::Compile, &[format!("s{}.c", i).as_str()]);
        c.cflags = strs(&["-O2", "-pthread"]);
        edges.push(c);
    }
    let g = TargetGraph::from_edges(edges).unwrap();
    let pk = p.generate_package(&g).unwrap();
    assert_eq!(pk.modules.len(), 8);
    assert_eq!(pk.license_name, "mesa3d-25xx_licenses");
    let d = &pk.modules[7];
    assert_eq!(d.kind, "cc_defaults");
    let cf = flags(d, "cflags");
    assert_eq!(cf[0], "-O2");
    assert!(!cf.contains(&"-pthread".to_string()));
}
