use vstd::prelude::*;
use crate::module::{push_text, with_prop, extend_props, texts, Module, ModuleError, ModuleView, Prop, PropValue};
use crate::project::Project;
use crate::graph::TargetGraph;
use crate::module::prop_of;
use crate::synth::{generation, module_views, target_pairs, Package, SynthError};
use crate::text::{
    contains, ends_with, file_name, file_name_of, file_stem, file_stem_of, is_prefix, is_suffix,
    join_path, join_path_exec, occurs_in, path_ends_with, path_ends_with_exec, path_starts_with,
    path_starts_with_exec, same_text, starts_with,
};

verus! {

/// The libraries that ship on the vendor partition.
pub open spec fn soc_lib(t: Seq<char>) -> bool {
    path_ends_with(t, "libEGL_mesa.so"@) || path_ends_with(t, "libGLESv1_CM_mesa.so"@)
        || path_ends_with(t, "libGLESv2_mesa.so"@) || path_ends_with(t, "dri_gbm.so"@)
        || path_ends_with(t, "libgallium_dri.so"@) || path_ends_with(t, "libgbm_mesa.so"@)
        || path_ends_with(t, "libvulkan_panfrost.so"@)
}

/// The EGL and GLES libraries, installed under `egl`.
pub open spec fn egl_lib(t: Seq<char>) -> bool {
    path_ends_with(t, "libEGL_mesa.so"@) || path_ends_with(t, "libGLESv1_CM_mesa.so"@)
        || path_ends_with(t, "libGLESv2_mesa.so"@)
}

/// The static libraries that need the libdrm headers.
pub open spec fn drm_header_lib(t: Seq<char>) -> bool {
    path_ends_with(t, "libdri.a"@) || path_ends_with(t, "libgallium.a"@)
        || path_ends_with(t, "libkmsrowinsys.a"@) || path_ends_with(t, "libloader.a"@)
        || path_ends_with(t, "libmesa_util.a"@) || path_ends_with(t, "libpipe_loader_dynamic.a"@)
        || path_ends_with(t, "libpipe_loader_static.a"@) || path_ends_with(t, "libswkmsdri.a"@)
        || path_ends_with(t, "libpanfrost_perf.a"@) || path_ends_with(t, "libpanfrost_midgard_disasm.a"@)
        || path_ends_with(t, "libpanfrost_midgard.a"@) || path_ends_with(t, "libpanfrost_shared.a"@)
        || path_ends_with(t, "libpanfrost_bifrost_disasm.a"@) || path_ends_with(t, "libpanfrost_bifrost.a"@)
        || path_ends_with(t, "libpanfrost_valhall_disasm.a"@) || path_ends_with(t, "libpanfrost_decode.a"@)
        || path_ends_with(t, "libpanfrost_lib.a"@) || path_ends_with(t, "libpanfrost_util.a"@)
        || path_ends_with(t, "libvulkan_instance.a"@) || path_ends_with(t, "libvulkan_lite_runtime.a"@)
        || path_ends_with(t, "libvulkan_runtime.a"@) || path_ends_with(t, "libvulkan_wsi.a"@)
}

pub open spec fn install_dir(t: Seq<char>) -> Option<Seq<char>> {
    if egl_lib(t) {
        Some("egl"@)
    } else if path_ends_with(t, "libvulkan_panfrost.so"@) {
        Some("hw"@)
    } else {
        None
    }
}

pub open spec fn header_libs(t: Seq<char>) -> Option<Seq<Seq<char>>> {
    if drm_header_lib(t) {
        if path_ends_with(t, "libvulkan_lite_runtime.a"@) {
            Some(seq!["hwvulkan_headers"@, "libdrm_headers"@])
        } else {
            Some(seq!["libdrm_headers"@])
        }
    } else if path_ends_with(t, "libEGL_mesa.so"@) {
        Some(seq!["libnativebase_headers"@])
    } else {
        None
    }
}

pub open spec fn export_dirs(t: Seq<char>) -> Option<Seq<Seq<char>>> {
    if path_ends_with(t, "libgbm_mesa.so"@) {
        Some(seq!["src/gbm/main"@])
    } else {
        None
    }
}

pub open spec fn push_if(s: Seq<Seq<char>>, cond: bool, x: Seq<char>) -> Seq<Seq<char>> {
    if cond {
        s.push(x)
    } else {
        s
    }
}

/// Warnings silenced in every module, then those of particular libraries.
pub open spec fn extra_cflags(t: Seq<char>) -> Seq<Seq<char>> {
    let base = seq![
        "-Wno-constant-conversion"@,
        "-Wno-enum-conversion"@,
        "-Wno-error"@,
        "-Wno-ignored-qualifiers"@,
        "-Wno-initializer-overrides"@,
        "-Wno-macro-redefined"@,
        "-Wno-non-virtual-dtor"@,
        "-Wno-pointer-arith"@,
        "-Wno-unused-parameter"@,
    ];
    let a = push_if(base, path_ends_with(t, "libnir.a"@), "-Wno-bool-conversion"@);
    let b = push_if(a, path_ends_with(t, "libvulkan_lite_runtime.a"@), "-Wno-unreachable-code-loop-increment"@);
    push_if(b, path_ends_with(t, "lib_mesa_u_gralloc.a"@), "-DUSE_IMAPPER4_METADATA_API"@)
}

/// Platform libraries that particular modules link against.
pub open spec fn extra_shared_libs(t: Seq<char>) -> Seq<Seq<char>> {
    let a = push_if(
        seq![],
        path_ends_with(t, "libdri.a"@) || path_ends_with(t, "libgallium.a"@)
            || path_ends_with(t, "libvulkan_lite_runtime.a"@) || path_ends_with(t, "libvulkan_wsi.a"@),
        "libsync"@,
    );
    let b = push_if(a, path_ends_with(t, "libmesa_util.a"@), "libz"@);
    let c = push_if(
        b,
        path_starts_with(t, "src/panfrost/vulkan"@) || path_ends_with(t, "libvulkan_lite_runtime.a"@),
        "libnativewindow"@,
    );
    push_if(
        c,
        path_ends_with(t, "libEGL_mesa.so"@) || path_ends_with(t, "libvulkan_panfrost.so"@)
            || path_ends_with(t, "lib_mesa_u_gralloc.a"@),
        "libui"@,
    )
}

pub open spec fn extra_srcs(t: Seq<char>) -> Seq<Seq<char>> {
    push_if(seq![], path_ends_with(t, "lib_mesa_u_gralloc.a"@), "src/util/u_gralloc/u_gralloc_imapper5_api.cpp"@)
}

pub open spec fn with_opt_list(m: ModuleView, n: Seq<char>, v: Option<Seq<Seq<char>>>) -> ModuleView {
    match v {
        Some(l) => with_prop(m, n, PropValue::List(l)),
        None => m,
    }
}

/// The module after the properties of a given target are set, before the lists are extended.
pub open spec fn mesa_base(t: Seq<char>, m: ModuleView) -> ModuleView {
    let m1 = if soc_lib(t) { with_prop(m, "soc_specific"@, PropValue::Flag(true)) } else { m };
    let m2 = match install_dir(t) {
        Some(d) => with_prop(m1, "relative_install_path"@, PropValue::Text(d)),
        None => m1,
    };
    let m3 = with_opt_list(m2, "header_libs"@, header_libs(t));
    let m4 = with_opt_list(m3, "export_include_dirs"@, export_dirs(t));
    with_prop(m4, "defaults"@, PropValue::List(seq!["mesa3d-25xx-defaults"@]))
}

pub open spec fn mesa_extension(t: Seq<char>, m: ModuleView) -> Result<ModuleView, ModuleError> {
    let b = mesa_base(t, m);
    match extend_props(b.props, "cflags"@, extra_cflags(t)) {
        Err(e) => Err(e),
        Ok(with_cflags) => match extend_props(with_cflags, "shared_libs"@, extra_shared_libs(t)) {
            Err(e) => Err(e),
            Ok(with_libs) => match extend_props(with_libs, "srcs"@, extra_srcs(t)) {
                Err(e) => Err(e),
                Ok(with_srcs) => Ok(ModuleView { props: with_srcs, ..b }),
            },
        },
    }
}


fn is_soc_lib(t: &str) -> (r: bool)
    ensures
        r == soc_lib(t@),
{
    path_ends_with_exec(t, "libEGL_mesa.so") || path_ends_with_exec(t, "libGLESv1_CM_mesa.so")
        || path_ends_with_exec(t, "libGLESv2_mesa.so") || path_ends_with_exec(t, "dri_gbm.so")
        || path_ends_with_exec(t, "libgallium_dri.so") || path_ends_with_exec(t, "libgbm_mesa.so")
        || path_ends_with_exec(t, "libvulkan_panfrost.so")
}

fn is_egl_lib(t: &str) -> (r: bool)
    ensures
        r == egl_lib(t@),
{
    path_ends_with_exec(t, "libEGL_mesa.so") || path_ends_with_exec(t, "libGLESv1_CM_mesa.so")
        || path_ends_with_exec(t, "libGLESv2_mesa.so")
}

fn is_drm_header_lib(t: &str) -> (r: bool)
    ensures
        r == drm_header_lib(t@),
{
    path_ends_with_exec(t, "libdri.a") || path_ends_with_exec(t, "libgallium.a")
        || path_ends_with_exec(t, "libkmsrowinsys.a") || path_ends_with_exec(t, "libloader.a")
        || path_ends_with_exec(t, "libmesa_util.a") || path_ends_with_exec(t, "libpipe_loader_dynamic.a")
        || path_ends_with_exec(t, "libpipe_loader_static.a") || path_ends_with_exec(t, "libswkmsdri.a")
        || path_ends_with_exec(t, "libpanfrost_perf.a") || path_ends_with_exec(t, "libpanfrost_midgard_disasm.a")
        || path_ends_with_exec(t, "libpanfrost_midgard.a") || path_ends_with_exec(t, "libpanfrost_shared.a")
        || path_ends_with_exec(t, "libpanfrost_bifrost_disasm.a") || path_ends_with_exec(t, "libpanfrost_bifrost.a")
        || path_ends_with_exec(t, "libpanfrost_valhall_disasm.a") || path_ends_with_exec(t, "libpanfrost_decode.a")
        || path_ends_with_exec(t, "libpanfrost_lib.a") || path_ends_with_exec(t, "libpanfrost_util.a")
        || path_ends_with_exec(t, "libvulkan_instance.a") || path_ends_with_exec(t, "libvulkan_lite_runtime.a")
        || path_ends_with_exec(t, "libvulkan_runtime.a") || path_ends_with_exec(t, "libvulkan_wsi.a")
}

fn header_libs_of(t: &str) -> (r: Option<Vec<String>>)
    ensures
        match r {
            Some(v) => header_libs(t@) == Some(texts(v@)),
            None => header_libs(t@) is None,
        },
{
    let mut v: Vec<String> = Vec::new();
    if is_drm_header_lib(t) {
        if path_ends_with_exec(t, "libvulkan_lite_runtime.a") {
            push_text(&mut v, "hwvulkan_headers");
        }
        push_text(&mut v, "libdrm_headers");
        Some(v)
    } else if path_ends_with_exec(t, "libEGL_mesa.so") {
        push_text(&mut v, "libnativebase_headers");
        Some(v)
    } else {
        None
    }
}

fn extra_cflags_of(t: &str) -> (r: Vec<String>)
    ensures
        texts(r@) == extra_cflags(t@),
{
    let mut v: Vec<String> = Vec::new();
    push_text(&mut v, "-Wno-constant-conversion");
    push_text(&mut v, "-Wno-enum-conversion");
    push_text(&mut v, "-Wno-error");
    push_text(&mut v, "-Wno-ignored-qualifiers");
    push_text(&mut v, "-Wno-initializer-overrides");
    push_text(&mut v, "-Wno-macro-redefined");
    push_text(&mut v, "-Wno-non-virtual-dtor");
    push_text(&mut v, "-Wno-pointer-arith");
    push_text(&mut v, "-Wno-unused-parameter");
    if path_ends_with_exec(t, "libnir.a") {
        push_text(&mut v, "-Wno-bool-conversion");
    }
    if path_ends_with_exec(t, "libvulkan_lite_runtime.a") {
        push_text(&mut v, "-Wno-unreachable-code-loop-increment");
    }
    if path_ends_with_exec(t, "lib_mesa_u_gralloc.a") {
        push_text(&mut v, "-DUSE_IMAPPER4_METADATA_API");
    }
    v
}

fn extra_shared_libs_of(t: &str) -> (r: Vec<String>)
    ensures
        texts(r@) == extra_shared_libs(t@),
{
    let mut v: Vec<String> = Vec::new();
    assert(texts(v@) =~= seq![]);
    if path_ends_with_exec(t, "libdri.a") || path_ends_with_exec(t, "libgallium.a")
        || path_ends_with_exec(t, "libvulkan_lite_runtime.a") || path_ends_with_exec(t, "libvulkan_wsi.a")
    {
        push_text(&mut v, "libsync");
    }
    if path_ends_with_exec(t, "libmesa_util.a") {
        push_text(&mut v, "libz");
    }
    if path_starts_with_exec(t, "src/panfrost/vulkan") || path_ends_with_exec(t, "libvulkan_lite_runtime.a") {
        push_text(&mut v, "libnativewindow");
    }
    if path_ends_with_exec(t, "libEGL_mesa.so") || path_ends_with_exec(t, "libvulkan_panfrost.so")
        || path_ends_with_exec(t, "lib_mesa_u_gralloc.a")
    {
        push_text(&mut v, "libui");
    }
    v
}

fn extra_srcs_of(t: &str) -> (r: Vec<String>)
    ensures
        texts(r@) == extra_srcs(t@),
{
    let mut v: Vec<String> = Vec::new();
    assert(texts(v@) =~= seq![]);
    if path_ends_with_exec(t, "lib_mesa_u_gralloc.a") {
        push_text(&mut v, "src/util/u_gralloc/u_gralloc_imapper5_api.cpp");
    }
    v
}

/// The project description of Mesa 25.x with the Panfrost Vulkan driver.
pub struct Mesa3DPanVK {
    /// Where the Mesa sources live.
    pub src_path: String,
}

impl Default for Mesa3DPanVK {
    fn default() -> (r: Mesa3DPanVK)
        ensures
            r.src_path@ == Seq::<char>::empty(),
    {
        Mesa3DPanVK { src_path: String::new() }
    }
}

impl Mesa3DPanVK {
    pub fn new(src_path: &str) -> (r: Mesa3DPanVK)
        ensures
            r.src_path@ == src_path@,
    {
        Mesa3DPanVK { src_path: src_path.to_string() }
    }

    pub fn get_name(&self) -> (r: &'static str)
        ensures
            r@ == "mesa3d-25xx"@,
    {
        "mesa3d-25xx"
    }

    /// Where the package goes in the host tree: `external/<name>`.
    pub fn get_android_path(&self) -> (r: String)
        ensures
            r@ == join_path("external"@, "mesa3d-25xx"@),
    {
        join_path_exec("external", self.get_name())
    }

    /// The project's test directory under `test_path`.
    pub fn get_test_path(&self, test_path: &str) -> (r: String)
        ensures
            r@ == join_path(test_path@, "mesa3d-25xx"@),
    {
        join_path_exec(test_path, self.get_name())
    }
}

impl Project for Mesa3DPanVK {
    open spec fn keeps_cflag(&self, flag: Seq<char>) -> bool {
        !is_prefix("'"@, flag) && flag != "-fno-rtti"@
    }

    open spec fn keeps_define(&self, define: Seq<char>) -> bool {
        true
    }

    open spec fn keeps_include(&self, dir: Seq<char>) -> bool {
        !path_ends_with(dir, "android_stub"@) && !occurs_in(join_path(self.src_path@, "subprojects"@), dir)
    }

    open spec fn keeps_link_flag(&self, flag: Seq<char>) -> bool {
        flag == "-Wl,--build-id=sha1"@ || flag == "-Wl,-Bsymbolic"@
    }

    open spec fn keeps_gen_header(&self, header: Seq<char>) -> bool {
        false
    }

    open spec fn keeps_lib(&self, lib: Seq<char>) -> bool {
        true
    }

    open spec fn keeps_target(&self, target: Seq<char>) -> bool {
        let n = file_name(target);
        !is_suffix(".o"@, n) && !is_suffix(".def"@, n) && !occurs_in("libdrm"@, n)
            && !path_starts_with(target, "src/android_stub"@)
    }

    open spec fn lib_module(&self, lib: Seq<char>) -> Option<Seq<char>> {
        if path_starts_with(lib, "src/android_stub"@) || !path_starts_with(lib, "src"@) {
            Some(file_stem(lib))
        } else {
            None
        }
    }

    open spec fn extension(&self, target: Seq<char>, m: ModuleView) -> Result<ModuleView, ModuleError> {
        mesa_extension(target, m)
    }

    fn filter_cflag(&self, flag: &str) -> (r: bool) {
        !starts_with(flag, "'") && !same_text(flag, "-fno-rtti")
    }

    fn filter_define(&self, define: &str) -> (r: bool) {
        true
    }

    fn filter_include(&self, dir: &str) -> (r: bool) {
        let subprojects = join_path_exec(self.src_path.as_str(), "subprojects");
        !path_ends_with_exec(dir, "android_stub") && !contains(dir, subprojects.as_str())
    }

    fn filter_link_flag(&self, flag: &str) -> (r: bool) {
        same_text(flag, "-Wl,--build-id=sha1") || same_text(flag, "-Wl,-Bsymbolic")
    }

    fn filter_gen_header(&self, header: &str) -> (r: bool) {
        false
    }

    fn filter_lib(&self, lib: &str) -> (r: bool) {
        true
    }

    fn filter_target(&self, target: &str) -> (r: bool) {
        let n = file_name_of(target);
        !ends_with(n, ".o") && !ends_with(n, ".def") && !contains(n, "libdrm")
            && !path_starts_with_exec(target, "src/android_stub")
    }

    fn map_lib(&self, lib: &str) -> (r: Option<String>) {
        if path_starts_with_exec(lib, "src/android_stub") || !path_starts_with_exec(lib, "src") {
            Some(file_stem_of(lib).to_string())
        } else {
            None
        }
    }

    fn extend_module(&self, target: &str, m: Module) -> (r: Result<Module, ModuleError>) {
        let ghost t = target@;
        let ghost m0 = m@;
        let mut m = m;
        if is_soc_lib(target) {
            m = m.add_prop("soc_specific", Prop::Bool(true));
        }
        let ghost m1 = if soc_lib(t) { with_prop(m0, "soc_specific"@, PropValue::Flag(true)) } else { m0 };
        assert(m@ == m1);
        if is_egl_lib(target) {
            m = m.add_prop("relative_install_path", Prop::Str("egl".to_string()));
        } else if path_ends_with_exec(target, "libvulkan_panfrost.so") {
            m = m.add_prop("relative_install_path", Prop::Str("hw".to_string()));
        }
        let ghost m2 = match install_dir(t) {
            Some(d) => with_prop(m1, "relative_install_path"@, PropValue::Text(d)),
            None => m1,
        };
        assert(m@ == m2);
        match header_libs_of(target) {
            Some(v) => {
                m = m.add_prop("header_libs", Prop::VecStr(v));
            },
            None => {},
        }
        let ghost m3 = with_opt_list(m2, "header_libs"@, header_libs(t));
        assert(m@ == m3);
        if path_ends_with_exec(target, "libgbm_mesa.so") {
            let mut v: Vec<String> = Vec::new();
            push_text(&mut v, "src/gbm/main");
            assert(texts(v@) =~= seq!["src/gbm/main"@]);
            m = m.add_prop("export_include_dirs", Prop::VecStr(v));
        }
        assert(m@ == with_opt_list(m3, "export_include_dirs"@, export_dirs(t)));
        let mut defaults: Vec<String> = Vec::new();
        push_text(&mut defaults, "mesa3d-25xx-defaults");
        assert(texts(defaults@) =~= seq!["mesa3d-25xx-defaults"@]);
        m = m.add_prop("defaults", Prop::VecStr(defaults));
        assert(m@ == mesa_base(t, m0));
        match m.extend_prop("cflags", extra_cflags_of(target)) {
            Err(e) => Err(e),
            Ok(m1) => match m1.extend_prop("shared_libs", extra_shared_libs_of(target)) {
                Err(e) => Err(e),
                Ok(m2) => m2.extend_prop("srcs", extra_srcs_of(target)),
            },
        }
    }
}


/// The artifacts of the package and their module names.
pub open spec fn mesa_targets() -> Seq<(Seq<char>, Seq<char>)> {
    seq![
        ("src/egl/libEGL_mesa.so"@, "libEGL_mesa"@),
        ("src/mapi/es1api/libGLESv1_CM_mesa.so"@, "libGLESv1_CM_mesa"@),
        ("src/mapi/es2api/libGLESv2_mesa.so"@, "libGLESv2_mesa"@),
        ("src/gbm/backends/dri/dri_gbm.so"@, "dri_gbm"@),
        ("src/gallium/targets/dri/libgallium_dri.so"@, "libgallium_dri"@),
        ("src/gbm/libgbm_mesa.so"@, "libgbm_mesa"@),
        ("src/panfrost/vulkan/libvulkan_panfrost.so"@, "vulkan.panfrost"@),
    ]
}

pub open spec fn mesa_license_kinds() -> Seq<Seq<char>> {
    seq![
        "SPDX-license-identifier-MIT"@,
        "SPDX-license-identifier-Apache-2.0"@,
        "SPDX-license-identifier-GPL-1.0-or-later"@,
        "SPDX-license-identifier-GPL-2.0-only"@,
    ]
}

pub open spec fn mesa_license_files() -> Seq<Seq<char>> {
    seq!["licenses/MIT"@, "licenses/Apache-2.0"@, "licenses/GPL-1.0-or-later"@, "licenses/GPL-2.0-only"@]
}

/// Generated dependencies outside the bundled subprojects, in order.
pub open spec fn own_gen_deps(deps: Seq<Seq<char>>) -> Seq<Seq<char>>
    decreases deps.len(),
{
    if deps.len() == 0 {
        deps
    } else if path_starts_with(deps.last(), "subprojects"@) {
        own_gen_deps(deps.drop_last())
    } else {
        own_gen_deps(deps.drop_last()).push(deps.last())
    }
}

/// `s` without any occurrence of `x`.
pub open spec fn without(s: Seq<Seq<char>>, x: Seq<char>) -> Seq<Seq<char>>
    decreases s.len(),
{
    if s.len() == 0 {
        s
    } else if s.last() == x {
        without(s.drop_last(), x)
    } else {
        without(s.drop_last(), x).push(s.last())
    }
}

/// The shared defaults: the cflags of `dri_gbm` but `-pthread`, or none where it has no list of them.
pub open spec fn defaults_of(cflags: Option<PropValue>) -> ModuleView {
    let flags = match cflags {
        Some(PropValue::List(l)) => without(l, "-pthread"@),
        _ => seq![],
    };
    let m0 = ModuleView { kind: "cc_defaults"@, props: seq![] };
    with_prop(with_prop(m0, "name"@, PropValue::Text("mesa3d-25xx-defaults"@)), "cflags"@, PropValue::List(flags))
}

pub open spec fn named(m: ModuleView, n: Seq<char>) -> bool {
    prop_of(m.props, "name"@) == Some(PropValue::Text(n))
}

/// The first module named `n`.
pub open spec fn named_index(ms: Seq<ModuleView>, n: Seq<char>) -> Option<int>
    decreases ms.len(),
{
    if ms.len() == 0 {
        None
    } else {
        match named_index(ms.drop_last(), n) {
            Some(i) => Some(i),
            None => if named(ms.last(), n) {
                Some(ms.len() - 1)
            } else {
                None
            },
        }
    }
}

/// The package description: the modules of the targets, then the shared defaults
/// derived from `dri_gbm`.
pub open spec fn mesa_package(p: &Mesa3DPanVK, g: Seq<crate::graph::ClosureEdge>) -> Result<Seq<ModuleView>, SynthError> {
    match generation(p, g, mesa_targets()) {
        Err(e) => Err(e),
        Ok(ms) => match named_index(ms, "dri_gbm"@) {
            None => Err(SynthError::MissingModule),
            Some(i) => Ok(ms.push(defaults_of(prop_of(ms[i].props, "cflags"@)))),
        },
    }
}

fn push_pair(v: &mut Vec<(String, String)>, a: &str, b: &str)
    ensures
        target_pairs(final(v)@) == target_pairs(old(v)@).push((a@, b@)),
{
    let ghost prev = v@;
    v.push((a.to_string(), b.to_string()));
    assert(target_pairs(v@) =~= target_pairs(prev).push((a@, b@)));
}

fn module_named(ms: &Vec<crate::module::Module>, n: &str) -> (r: Option<usize>)
    requires
        forall|k: int| 0 <= k < ms@.len() ==> (#[trigger] ms@[k])@.wf(),
    ensures
        match r {
            Some(i) => named_index(module_views(ms@), n@) == Some(i as int) && i < ms@.len(),
            None => named_index(module_views(ms@), n@) is None,
        },
{
    let mut i: usize = 0;
    assert(module_views(ms@).subrange(0, 0) =~= seq![]);
    while i < ms.len()
        invariant
            i <= ms@.len(),
            forall|k: int| 0 <= k < ms@.len() ==> (#[trigger] ms@[k])@.wf(),
            named_index(module_views(ms@).subrange(0, i as int), n@) is None,
        decreases ms@.len() - i,
    {
        let ghost next = module_views(ms@).subrange(0, i + 1);
        assert(next.drop_last() =~= module_views(ms@).subrange(0, i as int));
        assert(next.last() == ms@[i as int]@);
        let hit = match ms[i].get_prop("name") {
            Some(Prop::Str(s)) => same_text(s.as_str(), n),
            _ => false,
        };
        if hit {
            proof {
                lemma_named_index_prefix(module_views(ms@), n@, i + 1);
            }
            return Some(i);
        }
        i = i + 1;
    }
    assert(module_views(ms@).subrange(0, i as int) =~= module_views(ms@));
    None
}

proof fn lemma_named_index_prefix(ms: Seq<ModuleView>, n: Seq<char>, k: int)
    requires
        0 < k <= ms.len(),
        named_index(ms.subrange(0, k), n) is Some,
    ensures
        named_index(ms, n) == named_index(ms.subrange(0, k), n),
    decreases ms.len(),
{
    if k < ms.len() {
        assert(ms.drop_last().subrange(0, k) =~= ms.subrange(0, k));
        lemma_named_index_prefix(ms.drop_last(), n, k);
    } else {
        assert(ms.subrange(0, k) =~= ms);
    }
}

impl Mesa3DPanVK {
    /// The artifacts to translate, with their module names.
    pub fn targets(&self) -> (r: Vec<(String, String)>)
        ensures
            target_pairs(r@) == mesa_targets(),
    {
        let mut v: Vec<(String, String)> = Vec::new();
        assert(target_pairs(v@) =~= seq![]);
        push_pair(&mut v, "src/egl/libEGL_mesa.so", "libEGL_mesa");
        push_pair(&mut v, "src/mapi/es1api/libGLESv1_CM_mesa.so", "libGLESv1_CM_mesa");
        push_pair(&mut v, "src/mapi/es2api/libGLESv2_mesa.so", "libGLESv2_mesa");
        push_pair(&mut v, "src/gbm/backends/dri/dri_gbm.so", "dri_gbm");
        push_pair(&mut v, "src/gallium/targets/dri/libgallium_dri.so", "libgallium_dri");
        push_pair(&mut v, "src/gbm/libgbm_mesa.so", "libgbm_mesa");
        push_pair(&mut v, "src/panfrost/vulkan/libvulkan_panfrost.so", "vulkan.panfrost");
        v
    }

    /// The generated dependencies to stage: those outside `subprojects`.
    pub fn own_gen_deps(&self, deps: &Vec<String>) -> (r: Vec<String>)
        ensures
            texts(r@) == own_gen_deps(texts(deps@)),
    {
        let mut r: Vec<String> = Vec::new();
        let mut i: usize = 0;
        assert(texts(r@) =~= own_gen_deps(texts(deps@).subrange(0, 0)));
        while i < deps.len()
            invariant
                i <= deps@.len(),
                texts(r@) == own_gen_deps(texts(deps@).subrange(0, i as int)),
            decreases deps@.len() - i,
        {
            let ghost next = texts(deps@).subrange(0, i + 1);
            assert(next.drop_last() =~= texts(deps@).subrange(0, i as int));
            assert(next.last() == deps@[i as int]@);
            if !path_starts_with_exec(deps[i].as_str(), "subprojects") {
                push_text(&mut r, deps[i].as_str());
            }
            i = i + 1;
        }
        assert(texts(deps@).subrange(0, i as int) =~= texts(deps@));
        r
    }

    /// The shared defaults module, from the cflags of the `dri_gbm` module.
    pub fn defaults_module(&self, dri_gbm: &Module) -> (r: Module)
        requires
            dri_gbm@.wf(),
        ensures
            r@ == defaults_of(prop_of(dri_gbm@.props, "cflags"@)),
            r@.wf(),
    {
        let mut flags: Vec<String> = Vec::new();
        match dri_gbm.get_prop("cflags") {
            Some(Prop::VecStr(l)) => {
                let mut i: usize = 0;
                assert(texts(flags@) =~= without(texts(l@).subrange(0, 0), "-pthread"@));
                while i < l.len()
                    invariant
                        i <= l@.len(),
                        texts(flags@) == without(texts(l@).subrange(0, i as int), "-pthread"@),
                    decreases l@.len() - i,
                {
                    let ghost next = texts(l@).subrange(0, i + 1);
                    assert(next.drop_last() =~= texts(l@).subrange(0, i as int));
                    assert(next.last() == l@[i as int]@);
                    if !same_text(l[i].as_str(), "-pthread") {
                        push_text(&mut flags, l[i].as_str());
                    }
                    i = i + 1;
                }
                assert(texts(l@).subrange(0, i as int) =~= texts(l@));
            },
            _ => {
                assert(texts(flags@) =~= seq![]);
            },
        }
        let m = Module::new("cc_defaults");
        assert(m@.props =~= seq![]);
        let m = m.add_prop("name", Prop::Str("mesa3d-25xx-defaults".to_string()));
        m.add_prop("cflags", Prop::VecStr(flags))
    }

    /// The package description of the build graph `g`: the license declarations, one module
    /// per target, then the shared defaults.
    pub fn generate_package(&self, g: &TargetGraph) -> (r: Result<Package, SynthError>)
        requires
            g.wf(),
        ensures
            match r {
                Ok(pk) => mesa_package(self, g.view_graph()) == Ok::<Seq<ModuleView>, SynthError>(module_views(pk.modules@))
                    && pk.license_name@ == "mesa3d-25xx_licenses"@
                    && texts(pk.visibility@) == seq!["//visibility:public"@]
                    && texts(pk.license_kinds@) == mesa_license_kinds()
                    && texts(pk.license_files@) == mesa_license_files(),
                Err(e) => mesa_package(self, g.view_graph()) == Err::<Seq<ModuleView>, SynthError>(e),
            },
    {
        let mut visibility: Vec<String> = Vec::new();
        push_text(&mut visibility, "//visibility:public");
        let mut kinds: Vec<String> = Vec::new();
        push_text(&mut kinds, "SPDX-license-identifier-MIT");
        push_text(&mut kinds, "SPDX-license-identifier-Apache-2.0");
        push_text(&mut kinds, "SPDX-license-identifier-GPL-1.0-or-later");
        push_text(&mut kinds, "SPDX-license-identifier-GPL-2.0-only");
        let mut files: Vec<String> = Vec::new();
        push_text(&mut files, "licenses/MIT");
        push_text(&mut files, "licenses/Apache-2.0");
        push_text(&mut files, "licenses/GPL-1.0-or-later");
        push_text(&mut files, "licenses/GPL-2.0-only");
        assert(texts(visibility@) =~= seq!["//visibility:public"@]);
        assert(texts(kinds@) =~= mesa_license_kinds());
        assert(texts(files@) =~= mesa_license_files());
        let pk = Package::new(visibility, "mesa3d-25xx_licenses", kinds, files);
        let targets = self.targets();
        let mut pk = match pk.generate(self, g, &targets) {
            Ok(pk) => pk,
            Err(e) => return Err(e),
        };
        let ghost ms = module_views(pk.modules@);
        assert(ms.subrange(0, ms.len() as int) =~= ms);
        match module_named(&pk.modules, "dri_gbm") {
            None => Err(SynthError::MissingModule),
            Some(i) => {
                let d = self.defaults_module(&pk.modules[i]);
                pk.add_module(d);
                Ok(pk)
            },
        }
    }
}

} // verus!
