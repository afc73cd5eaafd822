use vstd::prelude::*;
use crate::module::{texts, Module, ModuleError, ModuleView};

verus! {

/// The per-project policy the engine consults: property filters, library naming and
/// the final extension of each module. Each hook is a pure function of its arguments,
/// named by a spec function of the trait.
pub trait Project {
    spec fn keeps_cflag(&self, flag: Seq<char>) -> bool;

    spec fn keeps_define(&self, define: Seq<char>) -> bool;

    spec fn keeps_include(&self, dir: Seq<char>) -> bool;

    spec fn keeps_link_flag(&self, flag: Seq<char>) -> bool;

    spec fn keeps_gen_header(&self, header: Seq<char>) -> bool;

    spec fn keeps_lib(&self, lib: Seq<char>) -> bool;

    spec fn keeps_target(&self, target: Seq<char>) -> bool;

    spec fn lib_module(&self, lib: Seq<char>) -> Option<Seq<char>>;

    spec fn extension(&self, target: Seq<char>, m: ModuleView) -> Result<ModuleView, ModuleError>;

    fn filter_cflag(&self, flag: &str) -> (r: bool)
        ensures
            r == self.keeps_cflag(flag@),
    ;

    fn filter_define(&self, define: &str) -> (r: bool)
        ensures
            r == self.keeps_define(define@),
    ;

    fn filter_include(&self, dir: &str) -> (r: bool)
        ensures
            r == self.keeps_include(dir@),
    ;

    fn filter_link_flag(&self, flag: &str) -> (r: bool)
        ensures
            r == self.keeps_link_flag(flag@),
    ;

    fn filter_gen_header(&self, header: &str) -> (r: bool)
        ensures
            r == self.keeps_gen_header(header@),
    ;

    fn filter_lib(&self, lib: &str) -> (r: bool)
        ensures
            r == self.keeps_lib(lib@),
    ;

    fn filter_target(&self, target: &str) -> (r: bool)
        ensures
            r == self.keeps_target(target@),
    ;

    /// The module that stands for library `lib`, or `None` where it is no reportable dependency.
    fn map_lib(&self, lib: &str) -> (r: Option<String>)
        ensures
            match r {
                Some(s) => self.lib_module(lib@) == Some(s@),
                None => self.lib_module(lib@) is None,
            },
    ;

    /// Adds, replaces or appends properties of the module built for `target`.
    fn extend_module(&self, target: &str, m: Module) -> (r: Result<Module, ModuleError>)
        requires
            m@.wf(),
        ensures
            match r {
                Ok(out) => self.extension(target@, m@) == Ok::<ModuleView, ModuleError>(out@) && out@.wf(),
                Err(e) => self.extension(target@, m@) == Err::<ModuleView, ModuleError>(e),
            },
    ;
}

/// The property lists a project filters, item by item.
#[derive(Debug, PartialEq, Eq, Structural, Clone, Copy)]
pub enum FilterKind {
    Cflag,
    Define,
    Include,
    LinkFlag,
    GenHeader,
    Lib,
    Target,
}

pub open spec fn keeps<P: Project>(p: &P, k: FilterKind, x: Seq<char>) -> bool {
    match k {
        FilterKind::Cflag => p.keeps_cflag(x),
        FilterKind::Define => p.keeps_define(x),
        FilterKind::Include => p.keeps_include(x),
        FilterKind::LinkFlag => p.keeps_link_flag(x),
        FilterKind::GenHeader => p.keeps_gen_header(x),
        FilterKind::Lib => p.keeps_lib(x),
        FilterKind::Target => p.keeps_target(x),
    }
}

/// The items of `xs` that the project keeps, in their order.
pub open spec fn kept<P: Project>(p: &P, k: FilterKind, xs: Seq<Seq<char>>) -> Seq<Seq<char>>
    decreases xs.len(),
{
    if xs.len() == 0 {
        xs
    } else if keeps(p, k, xs.last()) {
        kept(p, k, xs.drop_last()).push(xs.last())
    } else {
        kept(p, k, xs.drop_last())
    }
}

pub fn passes<P: Project>(p: &P, k: FilterKind, x: &str) -> (r: bool)
    ensures
        r == keeps(p, k, x@),
{
    match k {
        FilterKind::Cflag => p.filter_cflag(x),
        FilterKind::Define => p.filter_define(x),
        FilterKind::Include => p.filter_include(x),
        FilterKind::LinkFlag => p.filter_link_flag(x),
        FilterKind::GenHeader => p.filter_gen_header(x),
        FilterKind::Lib => p.filter_lib(x),
        FilterKind::Target => p.filter_target(x),
    }
}

/// Applies the project's filter of kind `k` to each item, keeping the survivors in order.
pub fn filter_items<P: Project>(p: &P, k: FilterKind, xs: &Vec<String>) -> (r: Vec<String>)
    ensures
        texts(r@) == kept(p, k, texts(xs@)),
{
    let mut r: Vec<String> = Vec::new();
    let mut i: usize = 0;
    while i < xs.len()
        invariant
            i <= xs@.len(),
            texts(r@) == kept(p, k, texts(xs@).subrange(0, i as int)),
        decreases xs@.len() - i,
    {
        let ghost pre = texts(xs@).subrange(0, i as int);
        let ghost next = texts(xs@).subrange(0, i + 1);
        assert(next.drop_last() =~= pre);
        assert(next.last() == xs@[i as int]@);
        if passes(p, k, xs[i].as_str()) {
            let s: String = xs[i].clone();
            let ghost prev = r@;
            r.push(s);
            assert(texts(r@) =~= texts(prev).push(s@));
        }
        i = i + 1;
    }
    assert(texts(xs@).subrange(0, i as int) =~= texts(xs@));
    r
}

/// A filter keeps exactly the items its predicate accepts, each where it stood: every
/// kept item is accepted, and for a kept item at any place in the input, what is kept
/// of the input up to it ends with it.
pub proof fn filter_keeps_accepted_in_order<P: Project>(p: &P, k: FilterKind, xs: Seq<Seq<char>>)
    ensures
        forall|i: int| 0 <= i < kept(p, k, xs).len() ==> keeps(p, k, #[trigger] kept(p, k, xs)[i]),
        forall|i: int| 0 <= i < xs.len() && keeps(p, k, #[trigger] xs[i]) ==> kept(p, k, xs.subrange(0, i + 1)).last() == xs[i],
    decreases xs.len(),
{
    if xs.len() > 0 {
        filter_keeps_accepted_in_order(p, k, xs.drop_last());
        let r = kept(p, k, xs.drop_last());
        assert forall|i: int| 0 <= i < kept(p, k, xs).len() implies keeps(p, k, #[trigger] kept(p, k, xs)[i]) by {
            if i < r.len() {
                assert(kept(p, k, xs)[i] == r[i]);
            }
        }
        assert forall|i: int| 0 <= i < xs.len() && keeps(p, k, #[trigger] xs[i]) implies kept(p, k, xs.subrange(0, i + 1)).last() == xs[i] by {
            let s = xs.subrange(0, i + 1);
            assert(s.last() == xs[i]);
        }
    }
}

} // verus!
