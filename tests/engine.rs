use ninja_to_soong::graph::{Edge, EdgeKind, GraphError, TargetGraph};
use ninja_to_soong::mesa::Mesa3DPanVK;
use ninja_to_soong::module::{Module, ModuleError, Prop};
use ninja_to_soong::project::{filter_items, FilterKind, Project};
use ninja_to_soong::synth::{assemble, module_kind, synthesize, Package, SynthError};

fn strs(v: &[&str]) -> Vec<String> {
    v.iter().map(|s| s.to_string()).collect()
}

fn edge(output: &str, kind: EdgeKind, inputs: &[&str], cflags: &[&str]) -> Edge {
    Edge {
        output: output.to_string(),
        kind,
        inputs: strs(inputs),
        implicit: Vec::new(),
        order_only: Vec::new(),
        cflags: strs(cflags),
        defines: Vec::new(),
        includes: Vec::new(),
        link_flags: Vec::new(),
    }
}

fn list(m: &Module, name: &str) -> Option<Vec<String>> {
    match m.get_prop(name) {
        Some(Prop::VecStr(v)) => Some(v.clone()),
        _ => None,
    }
}

fn two_object_graph(extra: Vec<Edge>, lib_inputs: &[&str]) -> TargetGraph {
    let mut edges = vec![
        edge("out/lib.so", EdgeKind::Link, lib_inputs, &[]),
        edge("obj1.o", EdgeKind::Compile, &["obj1.src"], &["-O2"]),
        edge("obj2.o", EdgeKind::Compile, &["obj2.src"], &["-O2", "-DFOO"]),
    ];
    edges.extend(extra);
    TargetGraph::from_edges(edges).unwrap()
}

#[test]
fn closure_deduplicates_flags_in_first_seen_order() {
    let g = two_object_graph(Vec::new(), &["obj1.o", "obj2.o"]);
    let u = g.resolve("out/lib.so").unwrap();
    assert_eq!(u.cflags, strs(&["-O2", "-DFOO"]));
    assert_eq!(u.sources, strs(&["obj1.src", "obj2.src"]));
    assert_eq!(u.edges, vec![0, 1, 2]);
    let p = Mesa3DPanVK::default();
    let m = assemble(&p, "cc_library_shared", "mylib", &u);
    assert_eq!(m.kind, "cc_library_shared");
    assert_eq!(list(&m, "cflags"), Some(strs(&["-O2", "-DFOO"])));
    assert_eq!(list(&m, "srcs"), Some(strs(&["obj1.src", "obj2.src"])));
    match m.get_prop("name") {
        Some(Prop::Str(s)) => assert_eq!(s, "mylib"),
        _ => panic!("name missing"),
    }
}

#[test]
fn synthesized_shared_library_keeps_aggregated_flags_first() {
    let g = two_object_graph(Vec::new(), &["obj1.o", "obj2.o"]);
    let p = Mesa3DPanVK::default();
    let m = synthesize(&p, &g, "out/lib.so", "mylib").unwrap();
    assert_eq!(m.kind, "cc_library_shared");
    let cflags = list(&m, "cflags").unwrap();
    assert_eq!(&cflags[..2], &strs(&["-O2", "-DFOO"])[..]);
    assert_eq!(cflags[2], "-Wno-constant-conversion");
    assert_eq!(list(&m, "srcs"), Some(strs(&["obj1.src", "obj2.src"])));
}

#[test]
fn rejected_library_is_left_out_without_touching_siblings() {
    let extra = vec![
        edge("out/libdrm.so", EdgeKind::Link, &[], &[]),
        edge("out/libfoo.so", EdgeKind::Link, &[], &[]),
    ];
    let g = two_object_graph(extra, &["obj1.o", "out/libdrm.so", "obj2.o", "out/libfoo.so"]);
    let u = g.resolve("out/lib.so").unwrap();
    assert_eq!(u.libs, strs(&["out/libdrm.so", "out/libfoo.so"]));
    let p = Mesa3DPanVK::default();
    let m = assemble(&p, "cc_library_shared", "mylib", &u);
    assert_eq!(list(&m, "shared_libs"), Some(strs(&["libfoo"])));
    assert_eq!(list(&m, "static_libs"), Some(Vec::new()));
}

#[test]
fn soc_specific_only_on_shared_libraries() {
    let edges = vec![
        edge("src/egl/libEGL_mesa.so", EdgeKind::Link, &["egl.o"], &[]),
        edge("egl.o", EdgeKind::Compile, &["egl.c"], &["-O2"]),
        edge("src/gallium/libgallium.a", EdgeKind::Archive, &["gallium.o"], &[]),
        edge("gallium.o", EdgeKind::Compile, &["gallium.c"], &[]),
    ];
    let g = TargetGraph::from_edges(edges).unwrap();
    let p = Mesa3DPanVK::default();
    let shared = synthesize(&p, &g, "src/egl/libEGL_mesa.so", "libEGL_mesa").unwrap();
    let stat = synthesize(&p, &g, "src/gallium/libgallium.a", "libgallium").unwrap();
    assert!(matches!(shared.get_prop("soc_specific"), Some(Prop::Bool(true))));
    assert!(stat.get_prop("soc_specific").is_none());
    assert_eq!(stat.kind, "cc_library_static");
    match shared.get_prop("relative_install_path") {
        Some(Prop::Str(s)) => assert_eq!(s, "egl"),
        _ => panic!("install path missing"),
    }
    assert_eq!(list(&shared, "header_libs"), Some(strs(&["libnativebase_headers"])));
    assert_eq!(list(&stat, "header_libs"), Some(strs(&["libdrm_headers"])));
    assert_eq!(list(&stat, "shared_libs"), Some(strs(&["libsync"])));
    assert_eq!(list(&shared, "shared_libs"), Some(strs(&["libui"])));
}

#[test]
fn filter_keeps_order() {
    let p = Mesa3DPanVK::default();
    let r = filter_items(&p, FilterKind::Cflag, &strs(&["-O2", "-fno-rtti", "-Wall"]));
    assert_eq!(r, strs(&["-O2", "-Wall"]));
    let r = filter_items(&p, FilterKind::LinkFlag, &strs(&["-Wl,-Bsymbolic", "-lm", "-Wl,--build-id=sha1"]));
    assert_eq!(r, strs(&["-Wl,-Bsymbolic", "-Wl,--build-id=sha1"]));
}

#[test]
fn order_only_inputs_are_not_walked() {
    let mut root = edge("out/lib.so", EdgeKind::Link, &["obj1.o"], &[]);
    root.order_only = strs(&["obj2.o"]);
    let edges = vec![
        root,
        edge("obj1.o", EdgeKind::Compile, &["obj1.src"], &["-O2"]),
        edge("obj2.o", EdgeKind::Compile, &["obj2.src"], &["-DFOO"]),
    ];
    let g = TargetGraph::from_edges(edges).unwrap();
    let u = g.resolve("out/lib.so").unwrap();
    assert_eq!(u.cflags, strs(&["-O2"]));
    assert_eq!(u.sources, strs(&["obj1.src"]));
}

#[test]
fn phony_inputs_resolve_like_direct_inputs() {
    let with_phony = TargetGraph::from_edges(vec![
        edge("out/lib.so", EdgeKind::Link, &["objs"], &[]),
        edge("objs", EdgeKind::Phony, &["obj1.o", "obj2.o"], &[]),
        edge("obj1.o", EdgeKind::Compile, &["obj1.src"], &["-O2"]),
        edge("obj2.o", EdgeKind::Compile, &["obj2.src"], &["-O2", "-DFOO"]),
    ])
    .unwrap();
    let direct = two_object_graph(Vec::new(), &["obj1.o", "obj2.o"]);
    let a = with_phony.resolve("out/lib.so").unwrap();
    let b = direct.resolve("out/lib.so").unwrap();
    assert_eq!(a.cflags, b.cflags);
    assert_eq!(a.sources, b.sources);
    assert_eq!(a.libs, b.libs);
}

#[test]
fn resolving_twice_gives_identical_lists() {
    let g = two_object_graph(Vec::new(), &["obj1.o", "obj2.o", "obj1.o"]);
    let a = g.resolve("out/lib.so").unwrap();
    let b = g.resolve("out/lib.so").unwrap();
    assert_eq!(a.cflags, b.cflags);
    assert_eq!(a.sources, b.sources);
    assert_eq!(a.edges, vec![0, 1, 2]);
}

#[test]
fn shared_subgraph_is_visited_once() {
    let g = TargetGraph::from_edges(vec![
        edge("out/lib.so", EdgeKind::Link, &["a.o", "b.o"], &[]),
        edge("a.o", EdgeKind::Compile, &["gen.h", "a.c"], &["-DA"]),
        edge("b.o", EdgeKind::Compile, &["gen.h", "b.c"], &["-DB"]),
        edge("gen.h", EdgeKind::Generate, &["gen.py"], &[]),
    ])
    .unwrap();
    let u = g.resolve("out/lib.so").unwrap();
    assert_eq!(u.edges, vec![0, 1, 2]);
    assert_eq!(u.generated, strs(&["gen.h"]));
    assert_eq!(u.sources, strs(&["a.c", "b.c"]));
    assert_eq!(u.cflags, strs(&["-DA", "-DB"]));
}

#[test]
fn cycle_is_reported() {
    let g = TargetGraph::from_edges(vec![
        edge("out/lib.so", EdgeKind::Link, &["a.o"], &[]),
        edge("a.o", EdgeKind::Compile, &["b.o"], &[]),
        edge("b.o", EdgeKind::Compile, &["a.o"], &[]),
    ])
    .unwrap();
    assert!(matches!(g.resolve("out/lib.so"), Err(GraphError::CyclicDependency)));
}

#[test]
fn duplicate_output_is_refused() {
    let r = TargetGraph::from_edges(vec![
        edge("a.o", EdgeKind::Compile, &["a.c"], &[]),
        edge("a.o", EdgeKind::Compile, &["b.c"], &[]),
    ]);
    assert!(matches!(r, Err(GraphError::DuplicateOutput)));
}

#[test]
fn unknown_target_is_reported() {
    let g = two_object_graph(Vec::new(), &["obj1.o"]);
    assert!(matches!(g.resolve("out/other.so"), Err(GraphError::UnknownTarget)));
    let p = Mesa3DPanVK::default();
    assert_eq!(
        synthesize(&p, &g, "out/other.so", "other").err(),
        Some(SynthError::Graph(GraphError::UnknownTarget))
    );
}

#[test]
fn unsupported_artifact_kind() {
    assert_eq!(module_kind("out/tool").err(), Some(SynthError::UnsupportedArtifactKind));
    assert_eq!(module_kind("out/libx.a").ok(), Some("cc_library_static"));
    let g = two_object_graph(Vec::new(), &["obj1.o"]);
    let p = Mesa3DPanVK::default();
    assert_eq!(synthesize(&p, &g, "obj1.o", "obj").err(), Some(SynthError::UnsupportedArtifactKind));
}

#[test]
fn extending_a_non_list_property_fails() {
    let m = Module::new("cc_library_shared").add_prop("cflags", Prop::Bool(true));
    assert_eq!(m.extend_prop("cflags", strs(&["-O2"])).err(), Some(ModuleError::PropertyTypeMismatch));
    let p = Mesa3DPanVK::default();
    let m = Module::new("cc_library_shared").add_prop("srcs", Prop::Str("x.c".to_string()));
    assert_eq!(
        p.extend_module("src/gbm/libgbm_mesa.so", m).err(),
        Some(ModuleError::PropertyTypeMismatch)
    );
}

#[test]
fn add_prop_replaces_in_place() {
    let m = Module::new("k")
        .add_prop("a", Prop::Bool(true))
        .add_prop("b", Prop::Bool(false))
        .add_prop("a", Prop::Str("x".to_string()));
    assert_eq!(m.props.len(), 2);
    assert_eq!(m.props[0].0, "a");
    assert!(matches!(&m.props[0].1, Prop::Str(s) if s == "x"));
    let m = m.extend_prop("l", strs(&["1"])).unwrap().extend_prop("l", strs(&["2"])).unwrap();
    assert_eq!(list(&m, "l"), Some(strs(&["1", "2"])));
}

#[test]
fn missing_dri_gbm_module() {
    let g = TargetGraph::from_edges(Vec::new()).unwrap();
    let p = Mesa3DPanVK::default();
    assert_eq!(
        p.generate_package(&g).err(),
        Some(SynthError::Graph(GraphError::UnknownTarget))
    );
}

#[test]
fn package_generation_keeps_request_order_and_fails_fast() {
    let g = two_object_graph(Vec::new(), &["obj1.o", "obj2.o"]);
    let p = Mesa3DPanVK::default();
    let pk = Package::new(strs(&["//visibility:public"]), "lic", Vec::new(), Vec::new());
    let targets = vec![
        ("out/lib.so".to_string(), "first".to_string()),
        ("out/lib.so".to_string(), "second".to_string()),
    ];
    let pk = pk.generate(&p, &g, &targets).unwrap();
    assert_eq!(pk.modules.len(), 2);
    assert!(matches!(pk.modules[1].get_prop("name"), Some(Prop::Str(s)) if s == "second"));
    let pk2 = Package::new(Vec::new(), "lic", Vec::new(), Vec::new());
    let bad = vec![
        ("out/lib.so".to_string(), "ok".to_string()),
        ("out/none.so".to_string(), "bad".to_string()),
        ("obj1.o".to_string(), "worse".to_string()),
    ];
    assert_eq!(pk2.generate(&p, &g, &bad).err(), Some(SynthError::Graph(GraphError::UnknownTarget)));
}
