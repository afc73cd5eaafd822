use vstd::prelude::*;
use crate::graph::{resolution, ClosureEdge, GraphError, TargetGraph, Unit, UnitView};
use crate::module::{copy_texts, texts, with_prop, Module, ModuleError, ModuleView, Prop, PropValue};
use crate::project::{filter_items, kept, FilterKind, Project};
use crate::text::{ends_with, is_suffix};

verus! {

/// Why a module could not be synthesized.
#[derive(Debug, PartialEq, Eq, Structural, Clone, Copy)]
pub enum SynthError {
    /// The artifact is neither a shared library nor a static archive.
    UnsupportedArtifactKind,
    /// Resolving the artifact's closure failed.
    Graph(GraphError),
    /// The extension hook failed.
    Module(ModuleError),
    /// No module of the package has the name asked for.
    MissingModule,
}

/// The module kind of an artifact, from its suffix.
pub open spec fn kind_of(t: Seq<char>) -> Option<Seq<char>> {
    if is_suffix(".so"@, t) {
        Some("cc_library_shared"@)
    } else if is_suffix(".a"@, t) {
        Some("cc_library_static"@)
    } else {
        None
    }
}

pub fn module_kind(target: &str) -> (r: Result<&'static str, SynthError>)
    ensures
        match r {
            Ok(k) => kind_of(target@) == Some(k@),
            Err(e) => kind_of(target@) is None && e == SynthError::UnsupportedArtifactKind,
        },
{
    if ends_with(target, ".so") {
        Ok("cc_library_shared")
    } else if ends_with(target, ".a") {
        Ok("cc_library_static")
    } else {
        Err(SynthError::UnsupportedArtifactKind)
    }
}

/// A library is linked statically where it is an archive.
pub open spec fn is_static_lib(l: Seq<char>) -> bool {
    is_suffix(".a"@, l)
}

/// The module names of the libraries that the project keeps and maps, of one linkage, in order.
pub open spec fn linked_libs<P: Project>(p: &P, libs: Seq<Seq<char>>, shared: bool) -> Seq<Seq<char>>
    decreases libs.len(),
{
    if libs.len() == 0 {
        seq![]
    } else {
        let rest = linked_libs(p, libs.drop_last(), shared);
        let l = libs.last();
        if p.keeps_lib(l) && p.keeps_target(l) && is_static_lib(l) != shared {
            match p.lib_module(l) {
                Some(n) => rest.push(n),
                None => rest,
            }
        } else {
            rest
        }
    }
}

/// A define as a compiler flag.
pub open spec fn define_flags(ds: Seq<Seq<char>>) -> Seq<Seq<char>> {
    ds.map_values(|d: Seq<char>| "-D"@ + d)
}

/// The record assembled from an aggregated unit, before the extension hook.
pub open spec fn assembled<P: Project>(p: &P, kind: Seq<char>, name: Seq<char>, u: UnitView) -> ModuleView {
    let m0 = ModuleView { kind: kind, props: seq![] };
    let m1 = with_prop(m0, "name"@, PropValue::Text(name));
    let m2 = with_prop(m1, "srcs"@, PropValue::List(u.sources + u.generated));
    let m3 = with_prop(m2, "generated_headers"@, PropValue::List(kept(p, FilterKind::GenHeader, u.generated)));
    let m4 = with_prop(
        m3,
        "cflags"@,
        PropValue::List(kept(p, FilterKind::Cflag, u.cflags) + define_flags(kept(p, FilterKind::Define, u.defines))),
    );
    let m5 = with_prop(m4, "local_include_dirs"@, PropValue::List(kept(p, FilterKind::Include, u.includes)));
    let m6 = with_prop(m5, "ldflags"@, PropValue::List(kept(p, FilterKind::LinkFlag, u.link_flags)));
    let m7 = with_prop(m6, "shared_libs"@, PropValue::List(linked_libs(p, u.libs, true)));
    with_prop(m7, "static_libs"@, PropValue::List(linked_libs(p, u.libs, false)))
}

/// The module of artifact `target` named `name`: its kind, its closure, the project's
/// filters and library names, then the project's extension.
pub open spec fn synthesis<P: Project>(p: &P, g: Seq<ClosureEdge>, target: Seq<char>, name: Seq<char>) -> Result<ModuleView, SynthError> {
    match kind_of(target) {
        None => Err(SynthError::UnsupportedArtifactKind),
        Some(k) => match resolution(g, target) {
            Err(e) => Err(SynthError::Graph(e)),
            Ok(u) => match p.extension(target, assembled(p, k, name, u)) {
                Err(e) => Err(SynthError::Module(e)),
                Ok(m) => Ok(m),
            },
        },
    }
}

fn define_flags_of(ds: &Vec<String>) -> (r: Vec<String>)
    ensures
        texts(r@) == define_flags(texts(ds@)),
{
    let mut r: Vec<String> = Vec::new();
    let mut i: usize = 0;
    while i < ds.len()
        invariant
            i <= ds@.len(),
            texts(r@) == define_flags(texts(ds@).subrange(0, i as int)),
        decreases ds@.len() - i,
    {
        let mut f = "-D".to_string();
        f.append(ds[i].as_str());
        let ghost prev = r@;
        r.push(f);
        assert(texts(r@) =~= texts(prev).push(f@));
        assert(define_flags(texts(ds@).subrange(0, i + 1)) =~= define_flags(texts(ds@).subrange(0, i as int)).push("-D"@ + ds@[i as int]@));
        i = i + 1;
    }
    assert(texts(ds@).subrange(0, i as int) =~= texts(ds@));
    r
}

fn linked_libs_of<P: Project>(p: &P, libs: &Vec<String>, shared: bool) -> (r: Vec<String>)
    ensures
        texts(r@) == linked_libs(p, texts(libs@), shared),
{
    let mut r: Vec<String> = Vec::new();
    let mut i: usize = 0;
    assert(texts(r@) =~= seq![]);
    while i < libs.len()
        invariant
            i <= libs@.len(),
            texts(r@) == linked_libs(p, texts(libs@).subrange(0, i as int), shared),
        decreases libs@.len() - i,
    {
        let ghost next = texts(libs@).subrange(0, i + 1);
        assert(next.drop_last() =~= texts(libs@).subrange(0, i as int));
        assert(next.last() == libs@[i as int]@);
        let l = libs[i].as_str();
        if p.filter_lib(l) && p.filter_target(l) && ends_with(l, ".a") != shared {
            match p.map_lib(l) {
                Some(n) => {
                    let ghost prev = r@;
                    r.push(n);
                    assert(texts(r@) =~= texts(prev).push(n@));
                },
                None => {},
            }
        }
        i = i + 1;
    }
    assert(texts(libs@).subrange(0, i as int) =~= texts(libs@));
    r
}

fn concat_lists(a: Vec<String>, b: &Vec<String>) -> (r: Vec<String>)
    ensures
        texts(r@) == texts(a@) + texts(b@),
{
    let mut r = a;
    let ghost start = texts(r@);
    let mut k: usize = 0;
    while k < b.len()
        invariant
            k <= b@.len(),
            texts(r@) == start + texts(b@).subrange(0, k as int),
        decreases b@.len() - k,
    {
        let s: String = b[k].clone();
        let ghost prev = r@;
        r.push(s);
        assert(texts(r@) =~= texts(prev).push(s@));
        assert(texts(b@).subrange(0, k + 1) =~= texts(b@).subrange(0, k as int).push(s@));
        k = k + 1;
    }
    assert(texts(b@).subrange(0, k as int) =~= texts(b@));
    r
}

/// Builds the record of an aggregated unit: the filtered lists and the mapped libraries.
pub fn assemble<P: Project>(p: &P, kind: &str, name: &str, u: &Unit) -> (r: Module)
    ensures
        r@ == assembled(p, kind@, name@, u@),
        r@.wf(),
{
    let m = Module::new(kind);
    assert(m@.props =~= seq![]);
    let m = m.add_prop("name", Prop::Str(name.to_string()));
    let srcs = concat_lists(copy_texts(&u.sources), &u.generated);
    let m = m.add_prop("srcs", Prop::VecStr(srcs));
    let m = m.add_prop("generated_headers", Prop::VecStr(filter_items(p, FilterKind::GenHeader, &u.generated)));
    let defines = filter_items(p, FilterKind::Define, &u.defines);
    let cflags = concat_lists(filter_items(p, FilterKind::Cflag, &u.cflags), &define_flags_of(&defines));
    let m = m.add_prop("cflags", Prop::VecStr(cflags));
    let m = m.add_prop("local_include_dirs", Prop::VecStr(filter_items(p, FilterKind::Include, &u.includes)));
    let m = m.add_prop("ldflags", Prop::VecStr(filter_items(p, FilterKind::LinkFlag, &u.link_flags)));
    let m = m.add_prop("shared_libs", Prop::VecStr(linked_libs_of(p, &u.libs, true)));
    m.add_prop("static_libs", Prop::VecStr(linked_libs_of(p, &u.libs, false)))
}

/// Synthesizes the module of artifact `target`, named `name`, in the fixed order:
/// kind, closure, filters and library names, then the project's extension.
pub fn synthesize<P: Project>(p: &P, g: &TargetGraph, target: &str, name: &str) -> (r: Result<Module, SynthError>)
    requires
        g.wf(),
    ensures
        match r {
            Ok(m) => synthesis(p, g.view_graph(), target@, name@) == Ok::<ModuleView, SynthError>(m@) && m@.wf(),
            Err(e) => synthesis(p, g.view_graph(), target@, name@) == Err::<ModuleView, SynthError>(e),
        },
{
    let kind = match module_kind(target) {
        Ok(k) => k,
        Err(e) => return Err(e),
    };
    let u = match g.resolve(target) {
        Ok(u) => u,
        Err(e) => return Err(SynthError::Graph(e)),
    };
    let m = assemble(p, kind, name, &u);
    match p.extend_module(target, m) {
        Ok(m) => Ok(m),
        Err(e) => Err(SynthError::Module(e)),
    }
}


/// A library that the project's library filter rejects is left out of the linked
/// libraries entirely, wherever it stands, and the others stay as they were.
pub proof fn rejected_library_is_left_out<P: Project>(p: &P, a: Seq<Seq<char>>, l: Seq<char>, b: Seq<Seq<char>>, shared: bool)
    requires
        !p.keeps_lib(l),
    ensures
        linked_libs(p, a + seq![l] + b, shared) == linked_libs(p, a + b, shared),
    decreases b.len(),
{
    if b.len() == 0 {
        assert((a + seq![l] + b).drop_last() =~= a);
        assert(a + b =~= a);
    } else {
        rejected_library_is_left_out(p, a, l, b.drop_last(), shared);
        assert((a + seq![l] + b).drop_last() =~= a + seq![l] + b.drop_last());
        assert((a + b).drop_last() =~= a + b.drop_last());
        assert((a + seq![l] + b).last() == b.last());
        assert((a + b).last() == b.last());
    }
}

pub open spec fn module_views(ms: Seq<Module>) -> Seq<ModuleView> {
    ms.map_values(|m: Module| m@)
}

pub open spec fn target_pairs(ts: Seq<(String, String)>) -> Seq<(Seq<char>, Seq<char>)> {
    ts.map_values(|t: (String, String)| (t.0@, t.1@))
}

/// The modules of the requested artifacts, in the order requested; the first failure in
/// that order where one fails.
pub open spec fn generation<P: Project>(p: &P, g: Seq<ClosureEdge>, ts: Seq<(Seq<char>, Seq<char>)>) -> Result<Seq<ModuleView>, SynthError>
    decreases ts.len(),
{
    if ts.len() == 0 {
        Ok(seq![])
    } else {
        match generation(p, g, ts.drop_last()) {
            Err(e) => Err(e),
            Ok(ms) => match synthesis(p, g, ts.last().0, ts.last().1) {
                Err(e) => Err(e),
                Ok(m) => Ok(ms.push(m)),
            },
        }
    }
}

/// The full set of module records, with the license and visibility declarations.
pub struct Package {
    pub visibility: Vec<String>,
    pub license_name: String,
    pub license_kinds: Vec<String>,
    pub license_files: Vec<String>,
    pub modules: Vec<Module>,
}

impl Package {
    /// A package with no modules yet.
    pub fn new(visibility: Vec<String>, license_name: &str, license_kinds: Vec<String>, license_files: Vec<String>) -> (r: Package)
        ensures
            r.visibility@ == visibility@,
            r.license_name@ == license_name@,
            r.license_kinds@ == license_kinds@,
            r.license_files@ == license_files@,
            r.modules@.len() == 0,
    {
        Package {
            visibility,
            license_name: license_name.to_string(),
            license_kinds,
            license_files,
            modules: Vec::new(),
        }
    }

    /// Appends `m` after the modules already present.
    pub fn add_module(&mut self, m: Module)
        ensures
            module_views(final(self).modules@) == module_views(old(self).modules@).push(m@),
            final(self).modules@ == old(self).modules@.push(m),
            final(self).visibility@ == old(self).visibility@,
            final(self).license_name@ == old(self).license_name@,
            final(self).license_kinds@ == old(self).license_kinds@,
            final(self).license_files@ == old(self).license_files@,
    {
        let ghost prev = self.modules@;
        self.modules.push(m);
        assert(module_views(self.modules@) =~= module_views(prev).push(m@));
    }

    /// Synthesizes one module per requested `(artifact, module name)`, in order, failing on
    /// the first artifact that fails.
    pub fn generate<P: Project>(self, p: &P, g: &TargetGraph, targets: &Vec<(String, String)>) -> (r: Result<Package, SynthError>)
        requires
            g.wf(),
            forall|k: int| 0 <= k < self.modules@.len() ==> (#[trigger] self.modules@[k])@.wf(),
        ensures
            match r {
                Ok(pk) => (forall|k: int| 0 <= k < pk.modules@.len() ==> (#[trigger] pk.modules@[k])@.wf())
                    && generation(p, g.view_graph(), target_pairs(targets@)) == Ok::<Seq<ModuleView>, SynthError>(
                    module_views(pk.modules@).subrange(self.modules@.len() as int, pk.modules@.len() as int))
                    && module_views(pk.modules@).subrange(0, self.modules@.len() as int) == module_views(self.modules@)
                    && pk.license_name@ == self.license_name@
                    && pk.visibility@ == self.visibility@
                    && pk.license_kinds@ == self.license_kinds@
                    && pk.license_files@ == self.license_files@,
                Err(e) => generation(p, g.view_graph(), target_pairs(targets@)) == Err::<Seq<ModuleView>, SynthError>(e),
            },
    {
        let mut pk = self;
        let ghost start = module_views(pk.modules@);
        let ghost n0 = pk.modules@.len();
        let mut i: usize = 0;
        assert(module_views(pk.modules@).subrange(n0 as int, n0 as int) =~= seq![]);
        assert(module_views(pk.modules@).subrange(0, n0 as int) =~= start);
        while i < targets.len()
            invariant
                i <= targets@.len(),
                g.wf(),
                pk.modules@.len() == n0 + i,
                pk.license_name@ == self.license_name@,
                pk.visibility@ == self.visibility@,
                pk.license_kinds@ == self.license_kinds@,
                pk.license_files@ == self.license_files@,
                forall|k: int| 0 <= k < pk.modules@.len() ==> (#[trigger] pk.modules@[k])@.wf(),
                module_views(pk.modules@).subrange(0, n0 as int) == start,
                generation(p, g.view_graph(), target_pairs(targets@).subrange(0, i as int))
                    == Ok::<Seq<ModuleView>, SynthError>(module_views(pk.modules@).subrange(n0 as int, n0 + i)),
            decreases targets@.len() - i,
        {
            let ghost ts = target_pairs(targets@).subrange(0, i + 1);
            assert(ts.drop_last() =~= target_pairs(targets@).subrange(0, i as int));
            assert(ts.last() == (targets@[i as int].0@, targets@[i as int].1@));
            let ghost before = module_views(pk.modules@);
            match synthesize(p, g, targets[i].0.as_str(), targets[i].1.as_str()) {
                Err(e) => {
                    proof {
                        lemma_generation_fails_on(p, g.view_graph(), target_pairs(targets@), i as int);
                    }
                    return Err(e);
                },
                Ok(m) => {
                    let ghost before_ms = pk.modules@;
                    pk.add_module(m);
                    assert(pk.modules@ =~= before_ms.push(m));
                    assert(module_views(pk.modules@).subrange(n0 as int, n0 + i + 1)
                        =~= before.subrange(n0 as int, n0 + i).push(m@));
                    assert(module_views(pk.modules@).subrange(0, n0 as int) =~= before.subrange(0, n0 as int));
                },
            }
            i = i + 1;
        }
        assert(target_pairs(targets@).subrange(0, i as int) =~= target_pairs(targets@));
        Ok(pk)
    }
}

/// Once a prefix of the requests fails, so does every longer one, with the same error.
proof fn lemma_generation_fails_on<P: Project>(p: &P, g: Seq<ClosureEdge>, ts: Seq<(Seq<char>, Seq<char>)>, i: int)
    requires
        0 <= i < ts.len(),
        generation(p, g, ts.subrange(0, i + 1)) is Err,
    ensures
        generation(p, g, ts) == generation(p, g, ts.subrange(0, i + 1)),
    decreases ts.len(),
{
    if i + 1 < ts.len() {
        assert(ts.drop_last().subrange(0, i + 1) =~= ts.subrange(0, i + 1));
        lemma_generation_fails_on(p, g, ts.drop_last(), i);
    } else {
        assert(ts.subrange(0, i + 1) =~= ts);
    }
}

} // verus!
