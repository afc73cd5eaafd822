use vstd::prelude::*;
use crate::module::texts;
use crate::text::same_text;

verus! {

/// What a build edge's rule does, as far as closure resolution cares.
#[derive(Debug, PartialEq, Eq, Structural, Clone, Copy)]
pub enum EdgeKind {
    /// Compiles sources into an object file.
    Compile,
    /// Links a shared library or executable.
    Link,
    /// Bundles objects into a static archive.
    Archive,
    /// Groups its inputs under a name; produces no file.
    Phony,
    /// A custom generator producing source files.
    Generate,
    /// A rule whose flags the engine cannot read.
    Unknown,
}

/// One rule invocation of the build graph.
pub struct Edge {
    pub output: String,
    pub kind: EdgeKind,
    pub inputs: Vec<String>,
    pub implicit: Vec<String>,
    pub order_only: Vec<String>,
    pub cflags: Vec<String>,
    pub defines: Vec<String>,
    pub includes: Vec<String>,
    pub link_flags: Vec<String>,
}

/// What closure resolution reads of an edge: order-only inputs are not part of it.
pub struct ClosureEdge {
    pub output: Seq<char>,
    pub kind: EdgeKind,
    pub deps: Seq<Seq<char>>,
    pub cflags: Seq<Seq<char>>,
    pub defines: Seq<Seq<char>>,
    pub includes: Seq<Seq<char>>,
    pub link_flags: Seq<Seq<char>>,
}

impl Edge {
    pub open spec fn closure_view(&self) -> ClosureEdge {
        ClosureEdge {
            output: self.output@,
            kind: self.kind,
            deps: texts(self.inputs@) + texts(self.implicit@),
            cflags: texts(self.cflags@),
            defines: texts(self.defines@),
            includes: texts(self.includes@),
            link_flags: texts(self.link_flags@),
        }
    }
}

pub open spec fn closure_graph(g: Seq<Edge>) -> Seq<ClosureEdge> {
    g.map_values(|e: Edge| e.closure_view())
}

/// No two edges produce the same output.
pub open spec fn outputs_unique(g: Seq<ClosureEdge>) -> bool {
    forall|i: int, j: int|
        0 <= i < g.len() && 0 <= j < g.len() && i != j ==> #[trigger] g[i].output != #[trigger] g[j].output
}

pub open spec fn has_producer(g: Seq<ClosureEdge>, x: Seq<char>) -> bool {
    exists|i: int| 0 <= i < g.len() && #[trigger] g[i].output == x
}

/// The edge that produces `x`, where one does.
pub open spec fn producer(g: Seq<ClosureEdge>, x: Seq<char>) -> Option<int> {
    if has_producer(g, x) {
        Some(choose|i: int| 0 <= i < g.len() && #[trigger] g[i].output == x)
    } else {
        None
    }
}

/// Appends `x` unless it is already present: the first occurrence keeps its place.
pub open spec fn add_unique(s: Seq<Seq<char>>, x: Seq<char>) -> Seq<Seq<char>> {
    if s.contains(x) {
        s
    } else {
        s.push(x)
    }
}

/// Order-preserving union of `s` with the items of `xs`, in turn.
pub open spec fn add_all(s: Seq<Seq<char>>, xs: Seq<Seq<char>>) -> Seq<Seq<char>>
    decreases xs.len(),
{
    if xs.len() == 0 {
        s
    } else {
        add_unique(add_all(s, xs.drop_last()), xs.last())
    }
}

/// The aggregated unit of a requested artifact.
pub struct Unit {
    /// Indices of the edges visited, in visiting order.
    pub edges: Vec<usize>,
    pub sources: Vec<String>,
    pub generated: Vec<String>,
    pub cflags: Vec<String>,
    pub defines: Vec<String>,
    pub includes: Vec<String>,
    pub link_flags: Vec<String>,
    pub libs: Vec<String>,
}

pub struct UnitView {
    pub edges: Seq<int>,
    pub sources: Seq<Seq<char>>,
    pub generated: Seq<Seq<char>>,
    pub cflags: Seq<Seq<char>>,
    pub defines: Seq<Seq<char>>,
    pub includes: Seq<Seq<char>>,
    pub link_flags: Seq<Seq<char>>,
    pub libs: Seq<Seq<char>>,
}

impl View for Unit {
    type V = UnitView;

    open spec fn view(&self) -> UnitView {
        UnitView {
            edges: self.edges@.map_values(|i: usize| i as int),
            sources: texts(self.sources@),
            generated: texts(self.generated@),
            cflags: texts(self.cflags@),
            defines: texts(self.defines@),
            includes: texts(self.includes@),
            link_flags: texts(self.link_flags@),
            libs: texts(self.libs@),
        }
    }
}

impl UnitView {
    pub open spec fn empty() -> UnitView {
        UnitView {
            edges: seq![],
            sources: seq![],
            generated: seq![],
            cflags: seq![],
            defines: seq![],
            includes: seq![],
            link_flags: seq![],
            libs: seq![],
        }
    }

    /// Every list of the unit, visited edges included, holds each item once.
    pub open spec fn distinct(self) -> bool {
        &&& self.edges.no_duplicates()
        &&& self.sources.no_duplicates()
        &&& self.generated.no_duplicates()
        &&& self.cflags.no_duplicates()
        &&& self.defines.no_duplicates()
        &&& self.includes.no_duplicates()
        &&& self.link_flags.no_duplicates()
        &&& self.libs.no_duplicates()
    }
}

/// Why a target graph could not be built or queried.
#[derive(Debug, PartialEq, Eq, Structural, Clone, Copy)]
pub enum GraphError {
    /// Two edges produce the same output.
    DuplicateOutput,
    /// No edge produces the requested artifact.
    UnknownTarget,
    /// The walk met an edge that was still being walked.
    CyclicDependency,
    /// The walk reached an edge whose rule has no known flag schema.
    UnknownRuleSchema,
}

/// Marks edge `e` visited and takes in its flags, defines, includes and link flags.
pub open spec fn absorb(u: UnitView, e: int, ce: ClosureEdge) -> UnitView {
    UnitView {
        edges: u.edges.push(e),
        cflags: add_all(u.cflags, ce.cflags),
        defines: add_all(u.defines, ce.defines),
        includes: add_all(u.includes, ce.includes),
        link_flags: add_all(u.link_flags, ce.link_flags),
        ..u
    }
}

/// Depth-first, pre-order walk into edge `e`; `path` holds the edges being walked
/// above it. A cycle where the walk meets an edge on its own path, or runs out of depth.
pub open spec fn walk_edge(g: Seq<ClosureEdge>, e: int, path: Seq<int>, fuel: nat, u: UnitView) -> Result<UnitView, GraphError>
    decreases fuel, 0nat,
{
    if path.contains(e) {
        Err(GraphError::CyclicDependency)
    } else if u.edges.contains(e) {
        Ok(u)
    } else if fuel == 0 {
        Err(GraphError::CyclicDependency)
    } else {
        walk_inputs(
            g,
            g[e].kind == EdgeKind::Compile,
            g[e].deps,
            path.push(e),
            (fuel - 1) as nat,
            absorb(u, e, g[e]),
        )
    }
}

/// One input of an edge: a leaf is a source of a compile edge, a generated file or a
/// library is recorded as such, a compile or phony edge is walked in place, and an edge
/// of an unknown rule is an error.
pub open spec fn walk_input(g: Seq<ClosureEdge>, compile: bool, x: Seq<char>, path: Seq<int>, fuel: nat, u: UnitView) -> Result<UnitView, GraphError>
    decreases fuel, 1nat,
{
    match producer(g, x) {
        None => if compile {
            Ok(UnitView { sources: add_unique(u.sources, x), ..u })
        } else {
            Ok(u)
        },
        Some(p) => match g[p].kind {
            EdgeKind::Generate => Ok(UnitView { generated: add_unique(u.generated, x), ..u }),
            EdgeKind::Link => Ok(UnitView { libs: add_unique(u.libs, x), ..u }),
            EdgeKind::Archive => Ok(UnitView { libs: add_unique(u.libs, x), ..u }),
            EdgeKind::Unknown => Err(GraphError::UnknownRuleSchema),
            _ => walk_edge(g, p, path, fuel, u),
        },
    }
}

/// The inputs `xs` of one edge, walked in order.
pub open spec fn walk_inputs(g: Seq<ClosureEdge>, compile: bool, xs: Seq<Seq<char>>, path: Seq<int>, fuel: nat, u: UnitView) -> Result<UnitView, GraphError>
    decreases fuel, xs.len() + 2,
{
    if xs.len() == 0 {
        Ok(u)
    } else {
        match walk_input(g, compile, xs[0], path, fuel, u) {
            Err(e) => Err(e),
            Ok(u2) => walk_inputs(g, compile, xs.drop_first(), path, fuel, u2),
        }
    }
}


proof fn lemma_add_unique_distinct(s: Seq<Seq<char>>, x: Seq<char>)
    requires
        s.no_duplicates(),
    ensures
        add_unique(s, x).no_duplicates(),
{
    if !s.contains(x) {
        let t = s.push(x);
        assert forall|i: int, j: int| 0 <= i < t.len() && 0 <= j < t.len() && i != j implies t[i] != t[j] by {
            if i == s.len() {
                assert(s[j] == t[j]);
            } else if j == s.len() {
                assert(s[i] == t[i]);
            }
        }
    }
}

proof fn lemma_add_all_distinct(s: Seq<Seq<char>>, xs: Seq<Seq<char>>)
    requires
        s.no_duplicates(),
    ensures
        add_all(s, xs).no_duplicates(),
    decreases xs.len(),
{
    if xs.len() > 0 {
        lemma_add_all_distinct(s, xs.drop_last());
        lemma_add_unique_distinct(add_all(s, xs.drop_last()), xs.last());
    }
}

/// Appends `x` to `v` unless `v` already holds it.
pub fn push_unique(v: &mut Vec<String>, x: &str)
    ensures
        texts(final(v)@) == add_unique(texts(old(v)@), x@),
        texts(old(v)@).no_duplicates() ==> texts(final(v)@).no_duplicates(),
{
    proof {
        if texts(old(v)@).no_duplicates() {
            lemma_add_unique_distinct(texts(old(v)@), x@);
        }
    }
    let mut i: usize = 0;
    while i < v.len()
        invariant
            i <= v@.len(),
            v@ == old(v)@,
            forall|j: int| 0 <= j < i ==> #[trigger] texts(v@)[j] != x@,
        decreases v@.len() - i,
    {
        if same_text(v[i].as_str(), x) {
            assert(texts(v@)[i as int] == x@);
            return;
        }
        i = i + 1;
    }
    assert(!texts(v@).contains(x@));
    let ghost prev = v@;
    v.push(x.to_string());
    assert(texts(v@) =~= texts(prev).push(x@));
}

/// Order-preserving union: appends each item of `xs` that `v` does not yet hold.
pub fn push_all_unique(v: &mut Vec<String>, xs: &Vec<String>)
    ensures
        texts(final(v)@) == add_all(texts(old(v)@), texts(xs@)),
        texts(old(v)@).no_duplicates() ==> texts(final(v)@).no_duplicates(),
{
    proof {
        if texts(old(v)@).no_duplicates() {
            lemma_add_all_distinct(texts(old(v)@), texts(xs@));
        }
    }
    let mut k: usize = 0;
    while k < xs.len()
        invariant
            k <= xs@.len(),
            texts(v@) == add_all(texts(old(v)@), texts(xs@).subrange(0, k as int)),
        decreases xs@.len() - k,
    {
        push_unique(v, xs[k].as_str());
        assert(texts(xs@).subrange(0, k + 1).drop_last() =~= texts(xs@).subrange(0, k as int));
        k = k + 1;
    }
    assert(texts(xs@).subrange(0, k as int) =~= texts(xs@));
}

/// The index of the edge that produces `x`.
pub fn find_producer(g: &Vec<Edge>, x: &str) -> (r: Option<usize>)
    requires
        outputs_unique(closure_graph(g@)),
    ensures
        match r {
            Some(i) => producer(closure_graph(g@), x@) == Some(i as int),
            None => producer(closure_graph(g@), x@) is None,
        },
{
    let ghost cg = closure_graph(g@);
    let mut i: usize = 0;
    while i < g.len()
        invariant
            i <= g@.len(),
            cg == closure_graph(g@),
            outputs_unique(cg),
            forall|j: int| 0 <= j < i ==> #[trigger] cg[j].output != x@,
        decreases g@.len() - i,
    {
        if same_text(g[i].output.as_str(), x) {
            assert(cg[i as int].output == x@);
            proof {
                let j = choose|j: int| 0 <= j < cg.len() && #[trigger] cg[j].output == x@;
                if j != i {
                    assert(cg[i as int].output != cg[j].output);
                }
            }
            return Some(i);
        }
        i = i + 1;
    }
    None
}


pub open spec fn index_seq(v: Seq<usize>) -> Seq<int> {
    v.map_values(|i: usize| i as int)
}

/// Every visited edge is an edge of a graph of `n` edges.
pub open spec fn edges_within(u: UnitView, n: int) -> bool {
    forall|k: int| 0 <= k < u.edges.len() ==> 0 <= #[trigger] u.edges[k] < n
}

fn holds_index(v: &Vec<usize>, e: usize) -> (r: bool)
    ensures
        r == index_seq(v@).contains(e as int),
{
    let mut i: usize = 0;
    while i < v.len()
        invariant
            i <= v@.len(),
            forall|j: int| 0 <= j < i ==> #[trigger] index_seq(v@)[j] != e as int,
        decreases v@.len() - i,
    {
        if v[i] == e {
            assert(index_seq(v@)[i as int] == e as int);
            return true;
        }
        i = i + 1;
    }
    false
}

fn concat_texts(a: &Vec<String>, b: &Vec<String>) -> (r: Vec<String>)
    ensures
        texts(r@) == texts(a@) + texts(b@),
{
    let mut r = crate::module::copy_texts(a);
    let mut k: usize = 0;
    while k < b.len()
        invariant
            k <= b@.len(),
            texts(r@) == texts(a@) + texts(b@).subrange(0, k as int),
        decreases b@.len() - k,
    {
        let s: String = b[k].clone();
        let ghost prev = r@;
        r.push(s);
        assert(texts(r@) =~= texts(prev).push(s@));
        assert(texts(b@).subrange(0, k + 1) =~= texts(b@).subrange(0, k as int).push(s@));
        k = k + 1;
    }
    assert(texts(b@).subrange(0, k as int) =~= texts(b@));
    r
}

fn walk_edge_exec(g: &Vec<Edge>, e: usize, path: &mut Vec<usize>, fuel: usize, u: &mut Unit) -> (r: Result<(), GraphError>)
    requires
        outputs_unique(closure_graph(g@)),
        e < g@.len(),
        old(u)@.distinct(),
        edges_within(old(u)@, g@.len() as int),
    ensures
        final(path)@ == old(path)@,
        match r {
            Ok(_) => walk_edge(closure_graph(g@), e as int, index_seq(old(path)@), fuel as nat, old(u)@) == Ok::<UnitView, GraphError>(final(u)@)
                && final(u)@.distinct() && edges_within(final(u)@, g@.len() as int),
            Err(err) => walk_edge(closure_graph(g@), e as int, index_seq(old(path)@), fuel as nat, old(u)@) == Err::<UnitView, GraphError>(err),
        },
    decreases fuel, 0nat,
{
    let ghost cg = closure_graph(g@);
    if holds_index(path, e) {
        return Err(GraphError::CyclicDependency);
    }
    if holds_index(&u.edges, e) {
        return Ok(());
    }
    if fuel == 0 {
        return Err(GraphError::CyclicDependency);
    }
    let edge = &g[e];
    assert(cg[e as int] == edge.closure_view());
    let ghost u0 = u@;
    u.edges.push(e);
    assert(index_seq(u.edges@) =~= u0.edges.push(e as int));
    push_all_unique(&mut u.cflags, &edge.cflags);
    push_all_unique(&mut u.defines, &edge.defines);
    push_all_unique(&mut u.includes, &edge.includes);
    push_all_unique(&mut u.link_flags, &edge.link_flags);
    proof {
        let t = u0.edges.push(e as int);
        assert forall|i: int, j: int| 0 <= i < t.len() && 0 <= j < t.len() && i != j implies t[i] != t[j] by {
            if i == u0.edges.len() {
                assert(u0.edges[j] == t[j]);
            } else if j == u0.edges.len() {
                assert(u0.edges[i] == t[i]);
            }
        }
        lemma_add_all_distinct(u0.cflags, cg[e as int].cflags);
        lemma_add_all_distinct(u0.defines, cg[e as int].defines);
        lemma_add_all_distinct(u0.includes, cg[e as int].includes);
        lemma_add_all_distinct(u0.link_flags, cg[e as int].link_flags);
    }
    assert(u@ == absorb(u0, e as int, cg[e as int]));
    let deps = concat_texts(&edge.inputs, &edge.implicit);
    let ghost path0 = path@;
    path.push(e);
    assert(index_seq(path@) =~= index_seq(path0).push(e as int));
    let r = walk_inputs_exec(g, edge.kind == EdgeKind::Compile, &deps, path, fuel - 1, u);
    path.pop();
    assert(path@ =~= path0);
    r
}

fn walk_input_exec(g: &Vec<Edge>, compile: bool, x: &str, path: &mut Vec<usize>, fuel: usize, u: &mut Unit) -> (r: Result<(), GraphError>)
    requires
        outputs_unique(closure_graph(g@)),
        old(u)@.distinct(),
        edges_within(old(u)@, g@.len() as int),
    ensures
        final(path)@ == old(path)@,
        match r {
            Ok(_) => walk_input(closure_graph(g@), compile, x@, index_seq(old(path)@), fuel as nat, old(u)@) == Ok::<UnitView, GraphError>(final(u)@)
                && final(u)@.distinct() && edges_within(final(u)@, g@.len() as int),
            Err(e) => walk_input(closure_graph(g@), compile, x@, index_seq(old(path)@), fuel as nat, old(u)@) == Err::<UnitView, GraphError>(e),
        },
    decreases fuel, 1nat,
{
    let ghost cg = closure_graph(g@);
    match find_producer(g, x) {
        None => {
            if compile {
                push_unique(&mut u.sources, x);
            }
            Ok(())
        },
        Some(p) => {
            assert(cg[p as int] == g@[p as int].closure_view());
            match g[p].kind {
                EdgeKind::Generate => {
                    push_unique(&mut u.generated, x);
                    Ok(())
                },
                EdgeKind::Link => {
                    push_unique(&mut u.libs, x);
                    Ok(())
                },
                EdgeKind::Archive => {
                    push_unique(&mut u.libs, x);
                    Ok(())
                },
                EdgeKind::Unknown => Err(GraphError::UnknownRuleSchema),
                _ => walk_edge_exec(g, p, path, fuel, u),
            }
        },
    }
}

fn walk_inputs_exec(g: &Vec<Edge>, compile: bool, xs: &Vec<String>, path: &mut Vec<usize>, fuel: usize, u: &mut Unit) -> (r: Result<(), GraphError>)
    requires
        outputs_unique(closure_graph(g@)),
        old(u)@.distinct(),
        edges_within(old(u)@, g@.len() as int),
    ensures
        final(path)@ == old(path)@,
        match r {
            Ok(_) => walk_inputs(closure_graph(g@), compile, texts(xs@), index_seq(old(path)@), fuel as nat, old(u)@) == Ok::<UnitView, GraphError>(final(u)@)
                && final(u)@.distinct() && edges_within(final(u)@, g@.len() as int),
            Err(e) => walk_inputs(closure_graph(g@), compile, texts(xs@), index_seq(old(path)@), fuel as nat, old(u)@) == Err::<UnitView, GraphError>(e),
        },
    decreases fuel, 2nat,
{
    let ghost cg = closure_graph(g@);
    let ghost pv = index_seq(path@);
    let ghost p_init = path@;
    let ghost whole = walk_inputs(cg, compile, texts(xs@), pv, fuel as nat, u@);
    let n = xs.len();
    let mut k: usize = 0;
    assert(texts(xs@).subrange(0, n as int) =~= texts(xs@));
    let mut r: Result<(), GraphError> = Ok(());
    while r.is_ok() && k < n
        invariant
            r is Ok ==> walk_inputs(cg, compile, texts(xs@).subrange(k as int, n as int), pv, fuel as nat, u@) == whole,
            r matches Err(err) ==> whole == Err::<UnitView, GraphError>(err),
            n == xs@.len(),
            k <= n,
            cg == closure_graph(g@),
            outputs_unique(cg),
            index_seq(path@) == pv,
            path@ == p_init,
            r is Ok ==> u@.distinct(),
            r is Ok ==> edges_within(u@, g@.len() as int),
        decreases n - k,
    {
        let ghost rest = texts(xs@).subrange(k as int, n as int);
        assert(rest[0] == xs@[k as int]@);
        assert(rest.drop_first() =~= texts(xs@).subrange(k + 1, n as int));
        r = walk_input_exec(g, compile, xs[k].as_str(), path, fuel, u);
        assert(rest.len() > 0);
        k = k + 1;
    }
    if r.is_ok() {
        assert(texts(xs@).subrange(n as int, n as int).len() == 0);
    }
    r
}



/// The aggregated unit of `target`: the walk from the edge that produces it.
pub open spec fn resolution(g: Seq<ClosureEdge>, target: Seq<char>) -> Result<UnitView, GraphError> {
    match producer(g, target) {
        None => Err(GraphError::UnknownTarget),
        Some(e) => walk_edge(g, e, seq![], g.len(), UnitView::empty()),
    }
}

/// Build edges indexed by their outputs.
pub struct TargetGraph {
    pub edges: Vec<Edge>,
}

impl TargetGraph {
    pub open spec fn view_graph(&self) -> Seq<ClosureEdge> {
        closure_graph(self.edges@)
    }

    pub open spec fn wf(&self) -> bool {
        outputs_unique(self.view_graph())
    }

    /// Indexes `edges`; fails where two of them produce the same output.
    pub fn from_edges(edges: Vec<Edge>) -> (r: Result<TargetGraph, GraphError>)
        ensures
            match r {
                Ok(t) => t.edges@ == edges@ && t.wf(),
                Err(e) => e == GraphError::DuplicateOutput && !outputs_unique(closure_graph(edges@)),
            },
    {
        let ghost cg = closure_graph(edges@);
        let n = edges.len();
        let mut i: usize = 0;
        while i < n
            invariant
                n == edges@.len(),
                i <= n,
                cg == closure_graph(edges@),
                forall|a: int, b: int| 0 <= a < i && 0 <= b < n && a != b ==> #[trigger] cg[a].output != #[trigger] cg[b].output,
            decreases n - i,
        {
            let mut j: usize = 0;
            while j < n
                invariant
                    n == edges@.len(),
                    i < n,
                    j <= n,
                    cg == closure_graph(edges@),
                    forall|a: int, b: int| 0 <= a < i && 0 <= b < n && a != b ==> #[trigger] cg[a].output != #[trigger] cg[b].output,
                    forall|b: int| 0 <= b < j && b != i ==> cg[i as int].output != #[trigger] cg[b].output,
                decreases n - j,
            {
                if j != i && same_text(edges[i].output.as_str(), edges[j].output.as_str()) {
                    assert(cg[i as int].output == cg[j as int].output);
                    return Err(GraphError::DuplicateOutput);
                }
                j = j + 1;
            }
            i = i + 1;
        }
        Ok(TargetGraph { edges })
    }

    /// Resolves the aggregated unit of `target`: a depth-first pre-order walk from the
    /// edge producing it, each edge entered once, with order-preserving deduplication.
    pub fn resolve(&self, target: &str) -> (r: Result<Unit, GraphError>)
        requires
            self.wf(),
        ensures
            match r {
                Ok(u) => resolution(self.view_graph(), target@) == Ok::<UnitView, GraphError>(u@)
                    && u@.distinct() && edges_within(u@, self.edges@.len() as int),
                Err(e) => resolution(self.view_graph(), target@) == Err::<UnitView, GraphError>(e),
            },
    {
        let g = &self.edges;
        match find_producer(g, target) {
            None => Err(GraphError::UnknownTarget),
            Some(e) => {
                let mut u = Unit {
                    edges: Vec::new(),
                    sources: Vec::new(),
                    generated: Vec::new(),
                    cflags: Vec::new(),
                    defines: Vec::new(),
                    includes: Vec::new(),
                    link_flags: Vec::new(),
                    libs: Vec::new(),
                };
                assert(u@.edges =~= seq![]);
                assert(u@.sources =~= seq![]);
                assert(u@.generated =~= seq![]);
                assert(u@.cflags =~= seq![]);
                assert(u@.defines =~= seq![]);
                assert(u@.includes =~= seq![]);
                assert(u@.link_flags =~= seq![]);
                assert(u@.libs =~= seq![]);
                assert(u@ == UnitView::empty());
                let mut path: Vec<usize> = Vec::new();
                assert(index_seq(path@) =~= seq![]);
                match walk_edge_exec(g, e, &mut path, g.len(), &mut u) {
                    Ok(()) => Ok(u),
                    Err(err) => Err(err),
                }
            },
        }
    }
}

/// Order-only inputs take no part in resolution: two graphs whose edges differ only in
/// their order-only inputs resolve every target to the same unit.
pub proof fn order_only_inputs_do_not_contribute(g1: Seq<Edge>, g2: Seq<Edge>, target: Seq<char>)
    requires
        g1.len() == g2.len(),
        forall|i: int| 0 <= i < g1.len() ==> {
            &&& #[trigger] g1[i].output@ == g2[i].output@
            &&& g1[i].kind == g2[i].kind
            &&& texts(g1[i].inputs@) == texts(g2[i].inputs@)
            &&& texts(g1[i].implicit@) == texts(g2[i].implicit@)
            &&& texts(g1[i].cflags@) == texts(g2[i].cflags@)
            &&& texts(g1[i].defines@) == texts(g2[i].defines@)
            &&& texts(g1[i].includes@) == texts(g2[i].includes@)
            &&& texts(g1[i].link_flags@) == texts(g2[i].link_flags@)
        },
    ensures
        resolution(closure_graph(g1), target) == resolution(closure_graph(g2), target),
{
    assert(closure_graph(g1) =~= closure_graph(g2));
}

/// Deduplicating a list that already holds each item once gives it back unchanged.
pub proof fn dedup_is_idempotent(s: Seq<Seq<char>>)
    requires
        s.no_duplicates(),
    ensures
        add_all(seq![], s) == s,
    decreases s.len(),
{
    if s.len() > 0 {
        let t = s.drop_last();
        assert forall|i: int, j: int| 0 <= i < t.len() && 0 <= j < t.len() && i != j implies t[i] != t[j] by {
            assert(t[i] == s[i] && t[j] == s[j]);
        }
        dedup_is_idempotent(t);
        assert(!t.contains(s.last())) by {
            if t.contains(s.last()) {
                let k = choose|k: int| 0 <= k < t.len() && t[k] == s.last();
                assert(s[k] == s[s.len() - 1]);
            }
        }
        assert(t.push(s.last()) =~= s);
    }
}

/// Resolution is repeatable, and each of its lists is its own deduplication.
pub proof fn resolution_is_stable(g: Seq<ClosureEdge>, target: Seq<char>, u: UnitView)
    requires
        resolution(g, target) == Ok::<UnitView, GraphError>(u),
        u.distinct(),
    ensures
        resolution(g, target) == resolution(g, target),
        add_all(seq![], u.cflags) == u.cflags,
        add_all(seq![], u.defines) == u.defines,
        add_all(seq![], u.includes) == u.includes,
        add_all(seq![], u.link_flags) == u.link_flags,
        add_all(seq![], u.sources) == u.sources,
        add_all(seq![], u.libs) == u.libs,
{
    dedup_is_idempotent(u.cflags);
    dedup_is_idempotent(u.defines);
    dedup_is_idempotent(u.includes);
    dedup_is_idempotent(u.link_flags);
    dedup_is_idempotent(u.sources);
    dedup_is_idempotent(u.libs);
}

/// An input of kind compile or phony: one the walk enters.
pub open spec fn walked_through(g: Seq<ClosureEdge>, x: Seq<char>) -> bool {
    producer(g, x) matches Some(q) && (g[q].kind == EdgeKind::Compile || g[q].kind == EdgeKind::Phony)
}

/// Every input of edge `f` that the walk enters has its producing edge among `es`.
pub open spec fn complete_in(g: Seq<ClosureEdge>, f: int, es: Seq<int>) -> bool {
    forall|k: int| 0 <= k < g[f].deps.len() && #[trigger] walked_through(g, g[f].deps[k])
        ==> es.contains(producer(g, g[f].deps[k])->0)
}

pub open spec fn extends(a: Seq<int>, b: Seq<int>) -> bool {
    a.len() <= b.len() && forall|i: int| 0 <= i < a.len() ==> #[trigger] b[i] == a[i]
}

/// What the walk from `u` to `u2` guarantees: it only adds edges, and each edge it added
/// has all the edges it enters visited.
pub open spec fn grows_completely(g: Seq<ClosureEdge>, u: UnitView, u2: UnitView) -> bool {
    &&& extends(u.edges, u2.edges)
    &&& forall|k: int| u.edges.len() <= k < u2.edges.len() ==> complete_in(g, #[trigger] u2.edges[k], u2.edges)
}

proof fn lemma_producer_in_range(g: Seq<ClosureEdge>, x: Seq<char>)
    ensures
        producer(g, x) matches Some(q) ==> 0 <= q < g.len(),
{
}

proof fn lemma_complete_grows(g: Seq<ClosureEdge>, f: int, es: Seq<int>, es2: Seq<int>)
    requires
        complete_in(g, f, es),
        extends(es, es2),
    ensures
        complete_in(g, f, es2),
{
    assert forall|k: int| 0 <= k < g[f].deps.len() && #[trigger] walked_through(g, g[f].deps[k])
        implies es2.contains(producer(g, g[f].deps[k])->0) by {
        let q = producer(g, g[f].deps[k])->0;
        let i = choose|i: int| 0 <= i < es.len() && es[i] == q;
        assert(es2[i] == q);
    }
}

proof fn lemma_walk_edge_complete(g: Seq<ClosureEdge>, e: int, path: Seq<int>, fuel: nat, u: UnitView)
    requires
        0 <= e < g.len(),
        walk_edge(g, e, path, fuel, u) is Ok,
    ensures
        grows_completely(g, u, walk_edge(g, e, path, fuel, u)->Ok_0),
        walk_edge(g, e, path, fuel, u)->Ok_0.edges.contains(e),
    decreases fuel, 0nat,
{
    let u2 = walk_edge(g, e, path, fuel, u)->Ok_0;
    if u.edges.contains(e) {
    } else {
        let u1 = absorb(u, e, g[e]);
        lemma_walk_inputs_complete(g, g[e].kind == EdgeKind::Compile, g[e].deps, path.push(e), (fuel - 1) as nat, u1);
        assert(u1.edges[u.edges.len() as int] == e);
        assert(u2.edges[u.edges.len() as int] == e);
        assert(complete_in(g, e, u2.edges)) by {
            assert forall|k: int| 0 <= k < g[e].deps.len() && #[trigger] walked_through(g, g[e].deps[k])
                implies u2.edges.contains(producer(g, g[e].deps[k])->0) by {
                assert(g[e].deps.contains(g[e].deps[k]));
            }
        }
        assert forall|k: int| u.edges.len() <= k < u2.edges.len() implies complete_in(g, #[trigger] u2.edges[k], u2.edges) by {
            if k == u.edges.len() {
            }
        }
    }
}

proof fn lemma_walk_input_complete(g: Seq<ClosureEdge>, compile: bool, x: Seq<char>, path: Seq<int>, fuel: nat, u: UnitView)
    requires
        walk_input(g, compile, x, path, fuel, u) is Ok,
    ensures
        grows_completely(g, u, walk_input(g, compile, x, path, fuel, u)->Ok_0),
        walked_through(g, x) ==> walk_input(g, compile, x, path, fuel, u)->Ok_0.edges.contains(producer(g, x)->0),
    decreases fuel, 1nat,
{
    lemma_producer_in_range(g, x);
    match producer(g, x) {
        None => {},
        Some(q) => {
            if g[q].kind == EdgeKind::Compile || g[q].kind == EdgeKind::Phony {
                lemma_walk_edge_complete(g, q, path, fuel, u);
            }
        },
    }
}

proof fn lemma_walk_inputs_complete(g: Seq<ClosureEdge>, compile: bool, xs: Seq<Seq<char>>, path: Seq<int>, fuel: nat, u: UnitView)
    requires
        walk_inputs(g, compile, xs, path, fuel, u) is Ok,
    ensures
        grows_completely(g, u, walk_inputs(g, compile, xs, path, fuel, u)->Ok_0),
        forall|k: int| 0 <= k < xs.len() && #[trigger] walked_through(g, xs[k])
            ==> walk_inputs(g, compile, xs, path, fuel, u)->Ok_0.edges.contains(producer(g, xs[k])->0),
    decreases fuel, xs.len() + 2,
{
    if xs.len() > 0 {
        let u1 = walk_input(g, compile, xs[0], path, fuel, u)->Ok_0;
        lemma_walk_input_complete(g, compile, xs[0], path, fuel, u);
        lemma_walk_inputs_complete(g, compile, xs.drop_first(), path, fuel, u1);
        let u2 = walk_inputs(g, compile, xs, path, fuel, u)->Ok_0;
        assert forall|k: int| u.edges.len() <= k < u2.edges.len() implies complete_in(g, #[trigger] u2.edges[k], u2.edges) by {
            if k < u1.edges.len() {
                assert(u2.edges[k] == u1.edges[k]);
                lemma_complete_grows(g, u1.edges[k], u1.edges, u2.edges);
            }
        }
        assert forall|k: int| 0 <= k < xs.len() && #[trigger] walked_through(g, xs[k])
            implies u2.edges.contains(producer(g, xs[k])->0) by {
            if k == 0 {
                let q = producer(g, xs[0])->0;
                let i = choose|i: int| 0 <= i < u1.edges.len() && u1.edges[i] == q;
                assert(u2.edges[i] == q);
            } else {
                assert(xs.drop_first()[k - 1] == xs[k]);
            }
        }
    }
}

/// Resolution reaches everything it should, once: the producing edge of the target is
/// visited, every visited edge has each compile or phony edge it depends on visited too,
/// and no edge is visited twice.
pub proof fn resolution_visits_reachable_edges_once(g: Seq<ClosureEdge>, target: Seq<char>, u: UnitView)
    requires
        resolution(g, target) == Ok::<UnitView, GraphError>(u),
    ensures
        u.edges.contains(producer(g, target)->0),
        forall|k: int| 0 <= k < u.edges.len() ==> complete_in(g, #[trigger] u.edges[k], u.edges),
{
    lemma_producer_in_range(g, target);
    let e = producer(g, target)->0;
    lemma_walk_edge_complete(g, e, seq![], g.len(), UnitView::empty());
}

/// Walking into an unvisited phony edge that carries no flags is walking its inputs
/// directly, with the phony edge marked visited.
pub proof fn phony_expands_in_place(g: Seq<ClosureEdge>, p: int, path: Seq<int>, fuel: nat, u: UnitView)
    requires
        0 <= p < g.len(),
        g[p].kind == EdgeKind::Phony,
        g[p].cflags.len() == 0,
        g[p].defines.len() == 0,
        g[p].includes.len() == 0,
        g[p].link_flags.len() == 0,
        !path.contains(p),
        !u.edges.contains(p),
        fuel > 0,
    ensures
        walk_edge(g, p, path, fuel, u) == walk_inputs(
            g,
            false,
            g[p].deps,
            path.push(p),
            (fuel - 1) as nat,
            UnitView { edges: u.edges.push(p), ..u },
        ),
{
    assert(absorb(u, p, g[p]) == UnitView { edges: u.edges.push(p), ..u });
}

} // verus!
