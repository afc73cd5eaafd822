use vstd::prelude::*;

verus! {

/// The character sequences held by a list of strings.
pub open spec fn texts(v: Seq<String>) -> Seq<Seq<char>> {
    v.map_values(|s: String| s@)
}

/// A property value of a module record.
pub enum Prop {
    Str(String),
    VecStr(Vec<String>),
    Bool(bool),
}

/// The value a property holds, as plain sequences.
pub enum PropValue {
    Text(Seq<char>),
    List(Seq<Seq<char>>),
    Flag(bool),
}

impl View for Prop {
    type V = PropValue;

    open spec fn view(&self) -> PropValue {
        match self {
            Prop::Str(s) => PropValue::Text(s@),
            Prop::VecStr(v) => PropValue::List(texts(v@)),
            Prop::Bool(b) => PropValue::Flag(*b),
        }
    }
}

/// Why a module record could not be changed.
#[derive(Debug, PartialEq, Eq, Structural, Clone, Copy)]
pub enum ModuleError {
    /// A property was extended as a list while it holds another shape.
    PropertyTypeMismatch,
}

/// A module record: its kind (`cc_library_shared`, ...) and its named properties, in order.
pub struct Module {
    pub kind: String,
    pub props: Vec<(String, Prop)>,
}

pub struct ModuleView {
    pub kind: Seq<char>,
    pub props: Seq<(Seq<char>, PropValue)>,
}

pub open spec fn prop_entries(v: Seq<(String, Prop)>) -> Seq<(Seq<char>, PropValue)> {
    v.map_values(|e: (String, Prop)| (e.0@, e.1@))
}

impl View for Module {
    type V = ModuleView;

    open spec fn view(&self) -> ModuleView {
        ModuleView { kind: self.kind@, props: prop_entries(self.props@) }
    }
}

/// Property names appear at most once.
pub open spec fn names_unique(ps: Seq<(Seq<char>, PropValue)>) -> bool {
    forall|i: int, j: int|
        0 <= i < ps.len() && 0 <= j < ps.len() && i != j ==> #[trigger] ps[i].0 != #[trigger] ps[j].0
}

pub open spec fn has_prop(ps: Seq<(Seq<char>, PropValue)>, n: Seq<char>) -> bool {
    exists|i: int| 0 <= i < ps.len() && #[trigger] ps[i].0 == n
}

pub open spec fn prop_index(ps: Seq<(Seq<char>, PropValue)>, n: Seq<char>) -> int {
    choose|i: int| 0 <= i < ps.len() && #[trigger] ps[i].0 == n
}

/// The value of property `n`, if the record has one.
pub open spec fn prop_of(ps: Seq<(Seq<char>, PropValue)>, n: Seq<char>) -> Option<PropValue> {
    if has_prop(ps, n) {
        Some(ps[prop_index(ps, n)].1)
    } else {
        None
    }
}

/// Setting property `n`: replaced in place where present, appended otherwise.
pub open spec fn set_prop(ps: Seq<(Seq<char>, PropValue)>, n: Seq<char>, v: PropValue) -> Seq<(Seq<char>, PropValue)> {
    if has_prop(ps, n) {
        ps.update(prop_index(ps, n), (n, v))
    } else {
        ps.push((n, v))
    }
}

/// Extending list property `n` by `items`: a new list where absent, a longer one where a list,
/// and a mismatch where it holds another shape.
pub open spec fn extend_props(ps: Seq<(Seq<char>, PropValue)>, n: Seq<char>, items: Seq<Seq<char>>) -> Result<Seq<(Seq<char>, PropValue)>, ModuleError> {
    match prop_of(ps, n) {
        None => Ok(ps.push((n, PropValue::List(items)))),
        Some(PropValue::List(old)) => Ok(ps.update(prop_index(ps, n), (n, PropValue::List(old + items)))),
        Some(_) => Err(ModuleError::PropertyTypeMismatch),
    }
}

/// The record with property `n` set to `v`.
pub open spec fn with_prop(m: ModuleView, n: Seq<char>, v: PropValue) -> ModuleView {
    ModuleView { props: set_prop(m.props, n, v), ..m }
}

impl ModuleView {
    pub open spec fn wf(self) -> bool {
        names_unique(self.props)
    }
}

/// Appends a copy of `s` to `v`.
pub fn push_text(v: &mut Vec<String>, s: &str)
    ensures
        texts(final(v)@) == texts(old(v)@).push(s@),
{
    let ghost prev = v@;
    v.push(s.to_string());
    assert(texts(v@) =~= texts(prev).push(s@));
}

pub fn copy_texts(v: &Vec<String>) -> (r: Vec<String>)
    ensures
        texts(r@) == texts(v@),
{
    let mut r: Vec<String> = Vec::new();
    let mut i: usize = 0;
    while i < v.len()
        invariant
            i <= v@.len(),
            r@.len() == i,
            texts(r@) == texts(v@).subrange(0, i as int),
        decreases v@.len() - i,
    {
        let s: String = v[i].clone();
        assert(s == v@[i as int]);
        r.push(s);
        assert(texts(r@)[i as int] == texts(v@)[i as int]);
        assert(texts(r@) =~= texts(v@).subrange(0, i + 1));
        i = i + 1;
    }
    assert(texts(v@).subrange(0, i as int) =~= texts(v@));
    r
}

impl Prop {
    pub fn copy(&self) -> (r: Prop)
        ensures
            r@ == self@,
    {
        match self {
            Prop::Str(s) => Prop::Str(s.clone()),
            Prop::VecStr(v) => Prop::VecStr(copy_texts(v)),
            Prop::Bool(b) => Prop::Bool(*b),
        }
    }
}

impl Module {
    /// An empty record of the given kind.
    pub fn new(kind: &str) -> (r: Module)
        ensures
            r@.kind == kind@,
            r@.props.len() == 0,
            r@.wf(),
    {
        Module { kind: kind.to_string(), props: Vec::new() }
    }

    fn find(&self, name: &str) -> (r: Option<usize>)
        requires
            self@.wf(),
        ensures
            match r {
                Some(i) => has_prop(self@.props, name@) && i == prop_index(self@.props, name@)
                    && i < self@.props.len(),
                None => !has_prop(self@.props, name@),
            },
    {
        let mut i: usize = 0;
        while i < self.props.len()
            invariant
                i <= self@.props.len(),
                self@.wf(),
                forall|j: int| 0 <= j < i ==> #[trigger] self@.props[j].0 != name@,
            decreases self@.props.len() - i,
        {
            if crate::text::same_text(self.props[i].0.as_str(), name) {
                assert(self@.props[i as int].0 == name@);
                proof {
                    let j = prop_index(self@.props, name@);
                    assert(self@.props[j].0 == name@);
                    if j != i {
                        assert(self@.props[i as int].0 != self@.props[j].0);
                    }
                }
                return Some(i);
            }
            i = i + 1;
        }
        None
    }

    /// The value of property `name`, if present.
    pub fn get_prop(&self, name: &str) -> (r: Option<&Prop>)
        requires
            self@.wf(),
        ensures
            match r {
                Some(p) => prop_of(self@.props, name@) == Some(p@),
                None => prop_of(self@.props, name@) is None,
            },
    {
        match self.find(name) {
            Some(i) => Some(&self.props[i].1),
            None => None,
        }
    }

    /// Sets property `name` to `value`, replacing an earlier value in place.
    pub fn add_prop(self, name: &str, value: Prop) -> (r: Module)
        requires
            self@.wf(),
        ensures
            r@.kind == self@.kind,
            r@.props == set_prop(self@.props, name@, value@),
            r@.wf(),
    {
        let mut m = self;
        let ghost ps = m@.props;
        match m.find(name) {
            Some(i) => {
                m.props.set(i, (name.to_string(), value));
                assert(prop_entries(m.props@) =~= ps.update(i as int, (name@, value@)));
            },
            None => {
                m.props.push((name.to_string(), value));
                assert(prop_entries(m.props@) =~= ps.push((name@, value@)));
            },
        }
        m
    }

    /// Appends `items` to list property `name`, creating it where absent.
    pub fn extend_prop(self, name: &str, items: Vec<String>) -> (r: Result<Module, ModuleError>)
        requires
            self@.wf(),
        ensures
            match r {
                Ok(m) => extend_props(self@.props, name@, texts(items@)) == Ok::<_, ModuleError>(m@.props)
                    && m@.kind == self@.kind && m@.wf(),
                Err(e) => extend_props(self@.props, name@, texts(items@)) == Err::<Seq<(Seq<char>, PropValue)>, _>(e),
            },
    {
        let mut m = self;
        let ghost ps = m@.props;
        match m.find(name) {
            None => {
                m.props.push((name.to_string(), Prop::VecStr(items)));
                assert(prop_entries(m.props@) =~= ps.push((name@, PropValue::List(texts(items@)))));
                Ok(m)
            },
            Some(i) => {
                match &m.props[i].1 {
                    Prop::VecStr(old) => {
                        let mut all = copy_texts(old);
                        let ghost start = texts(all@);
                        assert(start.len() == all@.len());
                        let mut k: usize = 0;
                        while k < items.len()
                            invariant
                                k <= items@.len(),
                                all@.len() == start.len() + k,
                                texts(all@) == start + texts(items@).subrange(0, k as int),
                            decreases items@.len() - k,
                        {
                            let s: String = items[k].clone();
                            let ghost prev = all@;
                            all.push(s);
                            assert(texts(all@) =~= texts(prev).push(s@));
                            assert(texts(items@).subrange(0, k + 1) =~= texts(items@).subrange(0, k as int).push(s@));
                            assert(texts(all@) =~= start + texts(items@).subrange(0, k + 1));
                            k = k + 1;
                        }
                        assert(texts(items@).subrange(0, k as int) =~= texts(items@));
                        m.props.set(i, (name.to_string(), Prop::VecStr(all)));
                        assert(prop_entries(m.props@) =~= ps.update(i as int, (name@, PropValue::List(start + texts(items@)))));
                        Ok(m)
                    },
                    _ => Err(ModuleError::PropertyTypeMismatch),
                }
            },
        }
    }
}

} // verus!
