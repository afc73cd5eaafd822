use ninja_to_soong::graph::{EdgeKind, GraphError};
use ninja_to_soong::mesa::Mesa3DPanVK;
use ninja_to_soong::module::{Module, Prop};
use ninja_to_soong::parse::{parse_build, rule_kind_of, split_words, ParseError};
use ninja_to_soong::synth::{synthesize, Package};

fn strs(v: &[&str]) -> Vec<String> {
    v.iter().map(|s| s.to_string()).collect()
}

const GRAPH: &str = "rule c_COMPILER\n  command = cc $ARGS -c $in -o $out\n\nbuild obj1.o: c_COMPILER obj1.src\n  ARGS = -O2 -Iinc -DFOO\nbuild out/lib.so: c_LINKER obj1.o | dep.o || gen\n  LINK_ARGS = -Wl,-Bsymbolic -lm\nbuild my$ file.o: cpp_COMPILER a$:b.c\n# comment\nbuild all: phony out/lib.so\nbuild build.ninja: REGENERATE_BUILD meson.build\n";

#[test]
fn words_with_escapes() {
    let env: Vec<(String, String)> = Vec::new();
    assert_eq!(split_words(&env, "build my$ file.o: c a$:b.c  $$x"), strs(&["build", "my file.o", ":", "c", "a:b.c", "$x"]));
    assert_eq!(split_words(&env, "   "), Vec::<String>::new());
}

#[test]
fn words_with_variables() {
    let env = vec![
        ("dir".to_string(), "src/a".to_string()),
        ("opt".to_string(), "-O1".to_string()),
        ("opt".to_string(), "-O2".to_string()),
    ];
    assert_eq!(split_words(&env, "$dir/x.c ${dir}y.c $opt $missing.c a${opt}"), strs(&["src/a/x.c", "src/ay.c", "-O2", ".c", "a-O2"]));
    assert_eq!(split_words(&env, "x $dir"), strs(&["x", "src/a"]));
}

#[test]
fn variables_expand_in_build_lines() {
    let text = "top = src/lib\nflags = -O3 -DX\nbuild $top/a.o: c_COMPILER ${top}/a.c\n  ARGS = $flags -g\n";
    let g = parse_build(text).unwrap();
    assert_eq!(g.edges[0].output, "src/lib/a.o");
    assert_eq!(g.edges[0].inputs, strs(&["src/lib/a.c"]));
    assert_eq!(g.edges[0].cflags, strs(&["-O3", "-g"]));
    assert_eq!(g.edges[0].defines, strs(&["X"]));
}

#[test]
fn rule_schemas() {
    assert_eq!(rule_kind_of("phony"), EdgeKind::Phony);
    assert_eq!(rule_kind_of("c_COMPILER"), EdgeKind::Compile);
    assert_eq!(rule_kind_of("cpp_LINKER"), EdgeKind::Link);
    assert_eq!(rule_kind_of("STATIC_LINKER"), EdgeKind::Archive);
    assert_eq!(rule_kind_of("CUSTOM_COMMAND_DEP"), EdgeKind::Generate);
    assert_eq!(rule_kind_of("REGENERATE_BUILD"), EdgeKind::Unknown);
}

#[test]
fn parses_build_lines_and_bindings() {
    let g = parse_build(GRAPH).unwrap();
    assert_eq!(g.edges.len(), 5);
    let e = &g.edges[0];
    assert_eq!(e.output, "obj1.o");
    assert_eq!(e.kind, EdgeKind::Compile);
    assert_eq!(e.inputs, strs(&["obj1.src"]));
    assert_eq!(e.cflags, strs(&["-O2"]));
    assert_eq!(e.includes, strs(&["inc"]));
    assert_eq!(e.defines, strs(&["FOO"]));
    let l = &g.edges[1];
    assert_eq!(l.kind, EdgeKind::Link);
    assert_eq!(l.inputs, strs(&["obj1.o"]));
    assert_eq!(l.implicit, strs(&["dep.o"]));
    assert_eq!(l.order_only, strs(&["gen"]));
    assert_eq!(l.link_flags, strs(&["-Wl,-Bsymbolic", "-lm"]));
    assert_eq!(g.edges[2].output, "my file.o");
    assert_eq!(g.edges[2].inputs, strs(&["a:b.c"]));
    assert_eq!(g.edges[3].kind, EdgeKind::Phony);
    assert_eq!(g.edges[4].kind, EdgeKind::Unknown);
}

#[test]
fn parse_errors() {
    assert_eq!(parse_build("x = 1\nbuild out.o c_COMPILER a.c\n").err(), Some(ParseError::Syntax(1)));
    assert_eq!(
        parse_build("build a.o: c_COMPILER a.c\nbuild a.o: c_COMPILER b.c\n").err(),
        Some(ParseError::DuplicateOutput)
    );
    assert_eq!(parse_build("").unwrap().edges.len(), 0);
}

#[test]
fn unknown_schema_only_when_reached() {
    let g = parse_build("build out/lib.so: c_LINKER gen.o\nbuild gen.o: MYSTERY x\nbuild other.so: c_LINKER\n").unwrap();
    assert!(matches!(g.resolve("out/lib.so"), Err(GraphError::UnknownRuleSchema)));
    assert!(g.resolve("other.so").is_ok());
}

#[test]
fn parsed_graph_synthesizes_with_defines_as_flags() {
    let g = parse_build(GRAPH).unwrap();
    let p = Mesa3DPanVK::default();
    let m = synthesize(&p, &g, "out/lib.so", "lib").unwrap();
    match m.get_prop("cflags") {
        Some(Prop::VecStr(v)) => {
            assert_eq!(v[0], "-O2");
            assert_eq!(v[1], "-DFOO");
        },
        _ => panic!("no cflags"),
    }
    match m.get_prop("ldflags") {
        Some(Prop::VecStr(v)) => assert_eq!(v, &strs(&["-Wl,-Bsymbolic"])),
        _ => panic!("no ldflags"),
    }
}

#[test]
fn module_text() {
    let m = Module::new("cc_library_shared")
        .add_prop("name", Prop::Str("x".to_string()))
        .add_prop("srcs", Prop::VecStr(strs(&["a.c", "b.c"])))
        .add_prop("soc_specific", Prop::Bool(true))
        .add_prop("cflags", Prop::VecStr(Vec::new()));
    assert_eq!(
        m.to_text(),
        "cc_library_shared {\n    name: \"x\",\n    srcs: [\"a.c\", \"b.c\"],\n    soc_specific: true,\n    cflags: [],\n}\n"
    );
}

#[test]
fn package_text() {
    let mut pk = Package::new(strs(&["//visibility:public"]), "lic", strs(&["MIT"]), strs(&["licenses/MIT"]));
    pk.add_module(Module::new("cc_defaults").add_prop("name", Prop::Str("d".to_string())));
    assert_eq!(
        pk.to_text(),
        "package {\n    default_applicable_licenses: [\"lic\"],\n}\n\nlicense {\n    name: \"lic\",\n    visibility: [\"//visibility:public\"],\n    license_kinds: [\"MIT\"],\n    license_text: [\"licenses/MIT\"],\n}\n\ncc_defaults {\n    name: \"d\",\n}\n"
    );
}
