use vstd::prelude::*;
use crate::module::{copy_texts, push_text, texts, with_prop, Module, ModuleView, Prop, PropValue};
use crate::synth::{module_views, Package};

verus! {

pub open spec fn quoted(s: Seq<char>) -> Seq<char> {
    "\""@ + s + "\""@
}

/// Quoted items separated by `, `.
pub open spec fn list_text(items: Seq<Seq<char>>) -> Seq<char>
    decreases items.len(),
{
    if items.len() == 0 {
        seq![]
    } else if items.len() == 1 {
        quoted(items[0])
    } else {
        list_text(items.drop_last()) + ", "@ + quoted(items.last())
    }
}

pub open spec fn value_text(v: PropValue) -> Seq<char> {
    match v {
        PropValue::Text(s) => quoted(s),
        PropValue::List(l) => "["@ + list_text(l) + "]"@,
        PropValue::Flag(b) => if b { "true"@ } else { "false"@ },
    }
}

/// One line per property, in order.
pub open spec fn props_text(ps: Seq<(Seq<char>, PropValue)>) -> Seq<char>
    decreases ps.len(),
{
    if ps.len() == 0 {
        seq![]
    } else {
        props_text(ps.drop_last()) + "    "@ + ps.last().0 + ": "@ + value_text(ps.last().1) + ",\n"@
    }
}

/// A module as a block: `kind {`, its properties, `}`.
pub open spec fn module_text(m: ModuleView) -> Seq<char> {
    m.kind + " {\n"@ + props_text(m.props) + "}\n"@
}

/// Modules in order, each after a blank line.
pub open spec fn modules_text(ms: Seq<ModuleView>) -> Seq<char>
    decreases ms.len(),
{
    if ms.len() == 0 {
        seq![]
    } else {
        modules_text(ms.drop_last()) + "\n"@ + module_text(ms.last())
    }
}

/// The `package` block naming the default license.
pub open spec fn package_header(license_name: Seq<char>) -> ModuleView {
    with_prop(
        ModuleView { kind: "package"@, props: seq![] },
        "default_applicable_licenses"@,
        PropValue::List(seq![license_name]),
    )
}

/// The `license` block.
pub open spec fn license_block(name: Seq<char>, vis: Seq<Seq<char>>, kinds: Seq<Seq<char>>, files: Seq<Seq<char>>) -> ModuleView {
    let m0 = ModuleView { kind: "license"@, props: seq![] };
    let m1 = with_prop(m0, "name"@, PropValue::Text(name));
    let m2 = with_prop(m1, "visibility"@, PropValue::List(vis));
    let m3 = with_prop(m2, "license_kinds"@, PropValue::List(kinds));
    with_prop(m3, "license_text"@, PropValue::List(files))
}

fn append_quoted(r: &mut String, s: &str)
    ensures
        final(r)@ == old(r)@ + quoted(s@),
{
    r.append("\"");
    r.append(s);
    r.append("\"");
}

fn append_list(r: &mut String, items: &Vec<String>)
    ensures
        final(r)@ == old(r)@ + list_text(texts(items@)),
{
    let ghost start = r@;
    let mut i: usize = 0;
    assert(list_text(texts(items@).subrange(0, 0)) =~= seq![]);
    assert(start + seq![] =~= start);
    while i < items.len()
        invariant
            i <= items@.len(),
            r@ == start + list_text(texts(items@).subrange(0, i as int)),
        decreases items@.len() - i,
    {
        let ghost next = texts(items@).subrange(0, i + 1);
        assert(next.drop_last() =~= texts(items@).subrange(0, i as int));
        assert(next.last() == items@[i as int]@);
        if i > 0 {
            r.append(", ");
        }
        append_quoted(r, items[i].as_str());
        if i == 0 {
            assert(next.len() == 1 && next[0] == items@[0]@);
            assert(r@ =~= start + list_text(next));
        } else {
            assert(r@ =~= start + list_text(next));
        }
        i = i + 1;
    }
    assert(texts(items@).subrange(0, i as int) =~= texts(items@));
}

fn append_value(r: &mut String, v: &Prop)
    ensures
        final(r)@ == old(r)@ + value_text(v@),
{
    match v {
        Prop::Str(s) => append_quoted(r, s.as_str()),
        Prop::VecStr(l) => {
            let ghost start = r@;
            r.append("[");
            append_list(r, l);
            r.append("]");
            assert(r@ =~= start + ("["@ + list_text(texts(l@)) + "]"@));
        },
        Prop::Bool(b) => {
            if *b {
                r.append("true");
            } else {
                r.append("false");
            }
        },
    }
}

impl Module {
    /// The module as a text block.
    pub fn to_text(&self) -> (r: String)
        ensures
            r@ == module_text(self@),
    {
        let mut r = self.kind.clone();
        r.append(" {\n");
        let ghost head = r@;
        let ghost ps = self@.props;
        let mut i: usize = 0;
        assert(ps.subrange(0, 0) =~= seq![]);
        assert(head + props_text(ps.subrange(0, 0)) =~= head);
        while i < self.props.len()
            invariant
                i <= self.props@.len(),
                ps == self@.props,
                r@ == head + props_text(ps.subrange(0, i as int)),
            decreases self.props@.len() - i,
        {
            let ghost next = ps.subrange(0, i + 1);
            assert(next.drop_last() =~= ps.subrange(0, i as int));
            assert(next.last() == (self.props@[i as int].0@, self.props@[i as int].1@));
            r.append("    ");
            r.append(self.props[i].0.as_str());
            r.append(": ");
            append_value(&mut r, &self.props[i].1);
            r.append(",\n");
            assert(r@ =~= head + props_text(next));
            i = i + 1;
        }
        assert(ps.subrange(0, i as int) =~= ps);
        r.append("}\n");
        assert(r@ =~= module_text(self@));
        r
    }
}

impl Package {
    /// The whole package description: the `package` and `license` blocks, then each
    /// module in the order it was added.
    pub fn to_text(&self) -> (r: String)
        ensures
            r@ == module_text(package_header(self.license_name@)) + "\n"@ + module_text(
                license_block(self.license_name@, texts(self.visibility@), texts(self.license_kinds@), texts(self.license_files@)),
            ) + modules_text(module_views(self.modules@)),
    {
        let mut names: Vec<String> = Vec::new();
        push_text(&mut names, self.license_name.as_str());
        let h = Module::new("package");
        assert(h@.props =~= seq![]);
        assert(texts(names@) =~= seq![self.license_name@]);
        let h = h.add_prop("default_applicable_licenses", Prop::VecStr(names));
        let l = Module::new("license");
        assert(l@.props =~= seq![]);
        let l = l.add_prop("name", Prop::Str(self.license_name.clone()));
        let l = l.add_prop("visibility", Prop::VecStr(copy_texts(&self.visibility)));
        let l = l.add_prop("license_kinds", Prop::VecStr(copy_texts(&self.license_kinds)));
        let l = l.add_prop("license_text", Prop::VecStr(copy_texts(&self.license_files)));
        let mut r = h.to_text();
        r.append("\n");
        let lt = l.to_text();
        r.append(lt.as_str());
        let ghost head = r@;
        let ghost ms = module_views(self.modules@);
        let mut i: usize = 0;
        assert(ms.subrange(0, 0) =~= seq![]);
        assert(head + modules_text(ms.subrange(0, 0)) =~= head);
        while i < self.modules.len()
            invariant
                i <= self.modules@.len(),
                ms == module_views(self.modules@),
                r@ == head + modules_text(ms.subrange(0, i as int)),
            decreases self.modules@.len() - i,
        {
            let ghost next = ms.subrange(0, i + 1);
            assert(next.drop_last() =~= ms.subrange(0, i as int));
            assert(next.last() == self.modules@[i as int]@);
            r.append("\n");
            let t = self.modules[i].to_text();
            r.append(t.as_str());
            assert(r@ =~= head + modules_text(next));
            i = i + 1;
        }
        assert(ms.subrange(0, i as int) =~= ms);
        r
    }
}

} // verus!
