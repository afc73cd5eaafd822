use vstd::prelude::*;
use crate::graph::{Edge, EdgeKind, GraphError, TargetGraph};
use crate::module::{push_text, texts};
use crate::text::{ends_with, is_prefix, is_suffix, same_text, starts_with};

verus! {

/// Why build-description text could not be read.
#[derive(Debug, PartialEq, Eq, Structural, Clone, Copy)]
pub enum ParseError {
    /// A malformed `build` line, at this line index.
    Syntax(usize),
    /// Two `build` lines produce the same output.
    DuplicateOutput,
}

/// Variables defined so far, in order: a later definition hides an earlier one.
pub open spec fn env_view(env: Seq<(String, String)>) -> Seq<(Seq<char>, Seq<char>)> {
    env.map_values(|d: (String, String)| (d.0@, d.1@))
}

/// The value of variable `name`: its last definition, or empty where it has none.
pub open spec fn lookup(env: Seq<(Seq<char>, Seq<char>)>, name: Seq<char>) -> Seq<char>
    decreases env.len(),
{
    if env.len() == 0 {
        seq![]
    } else if env.last().0 == name {
        env.last().1
    } else {
        lookup(env.drop_last(), name)
    }
}

/// A character of a variable name.
pub open spec fn is_var_char(c: char) -> bool {
    ('a' <= c && c <= 'z') || ('A' <= c && c <= 'Z') || ('0' <= c && c <= '9') || c == '_' || c == '-'
}

/// Scanner state: the words so far, the word being read, whether a `$` is pending, and
/// the name of a variable being read (braced or not).
pub struct ScanState {
    pub words: Seq<Seq<char>>,
    pub cur: Seq<char>,
    pub escaped: bool,
    pub in_var: bool,
    pub braced: bool,
    pub name: Seq<char>,
}

pub open spec fn flush(words: Seq<Seq<char>>, cur: Seq<char>) -> Seq<Seq<char>> {
    if cur.len() > 0 {
        words.push(cur)
    } else {
        words
    }
}

/// One character outside a variable name: after `$`, `{` or a name character starts a
/// variable and anything else stands for itself (`$ `, `$:`, `$$`); otherwise blanks end a
/// word and an unescaped `:` is a word of its own.
pub open spec fn normal_step(st: ScanState, c: char) -> ScanState {
    if st.escaped {
        if c == '{' {
            ScanState { escaped: false, in_var: true, braced: true, name: seq![], ..st }
        } else if is_var_char(c) {
            ScanState { escaped: false, in_var: true, braced: false, name: seq![c], ..st }
        } else {
            ScanState { cur: st.cur.push(c), escaped: false, ..st }
        }
    } else if c == '$' {
        ScanState { escaped: true, ..st }
    } else if c == ' ' || c == '\t' {
        ScanState { words: flush(st.words, st.cur), cur: seq![], ..st }
    } else if c == ':' {
        ScanState { words: flush(st.words, st.cur).push(seq![':']), cur: seq![], ..st }
    } else {
        ScanState { cur: st.cur.push(c), ..st }
    }
}

/// The pending variable's value put in its place.
pub open spec fn expand(env: Seq<(Seq<char>, Seq<char>)>, st: ScanState) -> ScanState {
    ScanState { cur: st.cur + lookup(env, st.name), in_var: false, braced: false, name: seq![], ..st }
}

/// One character of a line: inside a variable name it extends the name, and the first
/// character after an unbraced name (or the closing brace) expands the variable.
pub open spec fn scan_step(env: Seq<(Seq<char>, Seq<char>)>, st: ScanState, c: char) -> ScanState {
    if st.in_var {
        if st.braced {
            if c == '}' {
                expand(env, st)
            } else {
                ScanState { name: st.name.push(c), ..st }
            }
        } else if is_var_char(c) {
            ScanState { name: st.name.push(c), ..st }
        } else {
            normal_step(expand(env, st), c)
        }
    } else {
        normal_step(st, c)
    }
}

pub open spec fn scan(env: Seq<(Seq<char>, Seq<char>)>, s: Seq<char>) -> ScanState
    decreases s.len(),
{
    if s.len() == 0 {
        ScanState { words: seq![], cur: seq![], escaped: false, in_var: false, braced: false, name: seq![] }
    } else {
        scan_step(env, scan(env, s.drop_last()), s.last())
    }
}

/// The words of a line, with variables of `env` expanded.
pub open spec fn words_of(env: Seq<(Seq<char>, Seq<char>)>, s: Seq<char>) -> Seq<Seq<char>> {
    let st = scan(env, s);
    let end = if st.in_var { expand(env, st) } else { st };
    flush(end.words, end.cur)
}

fn lookup_var(env: &Vec<(String, String)>, name: &str) -> (r: String)
    ensures
        r@ == lookup(env_view(env@), name@),
{
    let ghost ev = env_view(env@);
    let mut i = env.len();
    assert(ev.subrange(0, i as int) =~= ev);
    while i > 0
        invariant
            i <= env@.len(),
            ev == env_view(env@),
            lookup(ev.subrange(0, i as int), name@) == lookup(ev, name@),
        decreases i,
    {
        let ghost sub = ev.subrange(0, i as int);
        assert(sub.drop_last() =~= ev.subrange(0, i - 1));
        assert(sub.last() == (env@[i - 1].0@, env@[i - 1].1@));
        if same_text(env[i - 1].0.as_str(), name) {
            return env[i - 1].1.clone();
        }
        i = i - 1;
    }
    String::new()
}

struct Scanner {
    words: Vec<String>,
    cur: String,
    escaped: bool,
    in_var: bool,
    braced: bool,
    name: String,
}

impl View for Scanner {
    type V = ScanState;

    closed spec fn view(&self) -> ScanState {
        ScanState {
            words: texts(self.words@),
            cur: self.cur@,
            escaped: self.escaped,
            in_var: self.in_var,
            braced: self.braced,
            name: self.name@,
        }
    }
}

impl Scanner {
    fn flush_word(&mut self)
        ensures
            final(self)@ == (ScanState { words: flush(old(self)@.words, old(self)@.cur), cur: seq![], ..old(self)@ }),
    {
        if self.cur.unicode_len() > 0 {
            let ghost prev = self.words@;
            let w = self.cur.clone();
            self.words.push(w);
            self.cur = String::new();
            assert(texts(self.words@) =~= texts(prev).push(w@));
        } else {
            self.cur = String::new();
        }
    }

    fn expand_var(&mut self, env: &Vec<(String, String)>)
        ensures
            final(self)@ == expand(env_view(env@), old(self)@),
    {
        let v = lookup_var(env, self.name.as_str());
        self.cur.append(v.as_str());
        self.in_var = false;
        self.braced = false;
        self.name = String::new();
    }

    fn normal(&mut self, c: char, one: &str)
        requires
            one@ == seq![c],
        ensures
            final(self)@ == normal_step(old(self)@, c),
    {
        if self.escaped {
            self.escaped = false;
            if c == '{' {
                self.in_var = true;
                self.braced = true;
                self.name = String::new();
            } else if ('a' <= c && c <= 'z') || ('A' <= c && c <= 'Z') || ('0' <= c && c <= '9') || c == '_' || c == '-' {
                self.in_var = true;
                self.braced = false;
                self.name = one.to_string();
            } else {
                let ghost prev = self.cur@;
                self.cur.append(one);
                assert(self.cur@ =~= prev.push(c));
            }
        } else if c == '$' {
            self.escaped = true;
        } else if c == ' ' || c == '\t' {
            self.flush_word();
        } else if c == ':' {
            self.flush_word();
            let ghost prev = self.words@;
            self.words.push(one.to_string());
            assert(texts(self.words@) =~= texts(prev).push(seq![':']));
        } else {
            let ghost prev = self.cur@;
            self.cur.append(one);
            assert(self.cur@ =~= prev.push(c));
        }
    }

    fn step(&mut self, env: &Vec<(String, String)>, c: char, one: &str)
        requires
            one@ == seq![c],
        ensures
            final(self)@ == scan_step(env_view(env@), old(self)@, c),
    {
        if self.in_var {
            if self.braced {
                if c == '}' {
                    self.expand_var(env);
                } else {
                    let ghost prev = self.name@;
                    self.name.append(one);
                    assert(self.name@ =~= prev.push(c));
                }
            } else if ('a' <= c && c <= 'z') || ('A' <= c && c <= 'Z') || ('0' <= c && c <= '9') || c == '_' || c == '-' {
                let ghost prev = self.name@;
                self.name.append(one);
                assert(self.name@ =~= prev.push(c));
            } else {
                self.expand_var(env);
                self.normal(c, one);
            }
        } else {
            self.normal(c, one);
        }
    }
}

/// Splits a line into words, expanding the variables of `env`.
pub fn split_words(env: &Vec<(String, String)>, line: &str) -> (r: Vec<String>)
    ensures
        texts(r@) == words_of(env_view(env@), line@),
{
    let n = line.unicode_len();
    let mut sc = Scanner {
        words: Vec::new(),
        cur: String::new(),
        escaped: false,
        in_var: false,
        braced: false,
        name: String::new(),
    };
    assert(sc@ == scan(env_view(env@), line@.subrange(0, 0))) by {
        assert(texts(sc.words@) =~= seq![]);
    }
    let mut i: usize = 0;
    while i < n
        invariant
            n == line@.len(),
            i <= n,
            sc@ == scan(env_view(env@), line@.subrange(0, i as int)),
        decreases n - i,
    {
        let ghost next = line@.subrange(0, i + 1);
        assert(next.drop_last() =~= line@.subrange(0, i as int));
        let c = line.get_char(i);
        let one = line.substring_char(i, i + 1);
        assert(one@ =~= seq![c]);
        sc.step(env, c, one);
        i = i + 1;
    }
    assert(line@.subrange(0, n as int) =~= line@);
    if sc.in_var {
        sc.expand_var(env);
    }
    sc.flush_word();
    sc.words
}

/// The flag schema of a rule, by its name: `phony`, custom commands, compilers, the static
/// linker and the other linkers; any other rule has no known schema.
pub open spec fn rule_kind(r: Seq<char>) -> EdgeKind {
    if r == "phony"@ {
        EdgeKind::Phony
    } else if is_prefix("CUSTOM_COMMAND"@, r) {
        EdgeKind::Generate
    } else if is_suffix("_COMPILER"@, r) {
        EdgeKind::Compile
    } else if is_prefix("STATIC_LINKER"@, r) {
        EdgeKind::Archive
    } else if is_suffix("_LINKER"@, r) {
        EdgeKind::Link
    } else {
        EdgeKind::Unknown
    }
}

pub fn rule_kind_of(r: &str) -> (k: EdgeKind)
    ensures
        k == rule_kind(r@),
{
    if same_text(r, "phony") {
        EdgeKind::Phony
    } else if starts_with(r, "CUSTOM_COMMAND") {
        EdgeKind::Generate
    } else if ends_with(r, "_COMPILER") {
        EdgeKind::Compile
    } else if starts_with(r, "STATIC_LINKER") {
        EdgeKind::Archive
    } else if ends_with(r, "_LINKER") {
        EdgeKind::Link
    } else {
        EdgeKind::Unknown
    }
}

/// Index of the first word `w` at or after `from`, or the number of words where none is.
pub open spec fn find_word(ws: Seq<Seq<char>>, w: Seq<char>, from: int) -> int
    decreases ws.len() - from,
{
    if from >= ws.len() {
        ws.len() as int
    } else if ws[from] == w {
        from
    } else {
        find_word(ws, w, from + 1)
    }
}

fn find_word_exec(ws: &Vec<String>, w: &str, from: usize) -> (r: usize)
    requires
        from <= ws@.len(),
    ensures
        r as int == find_word(texts(ws@), w@, from as int),
        from <= r <= ws@.len(),
{
    let mut i = from;
    while i < ws.len()
        invariant
            from <= i <= ws@.len(),
            find_word(texts(ws@), w@, i as int) == find_word(texts(ws@), w@, from as int),
        decreases ws@.len() - i,
    {
        if same_text(ws[i].as_str(), w) {
            return i;
        }
        i = i + 1;
    }
    i
}

/// A `build` line: `build OUT : RULE inputs [| implicit] [|| order-only]`.
pub struct BuildLine {
    pub output: Seq<char>,
    pub rule: Seq<char>,
    pub inputs: Seq<Seq<char>>,
    pub implicit: Seq<Seq<char>>,
    pub order_only: Seq<Seq<char>>,
}

pub open spec fn build_line(ws: Seq<Seq<char>>) -> Option<BuildLine> {
    if ws.len() >= 4 && ws[0] == "build"@ && ws[2] == seq![':'] {
        let dbl = find_word(ws, "||"@, 4);
        let bar = find_word(ws.subrange(0, dbl), "|"@, 4);
        Some(BuildLine {
            output: ws[1],
            rule: ws[3],
            inputs: ws.subrange(4, bar),
            implicit: if bar < dbl { ws.subrange(bar + 1, dbl) } else { seq![] },
            order_only: if dbl < ws.len() { ws.subrange(dbl + 1, ws.len() as int) } else { seq![] },
        })
    } else {
        None
    }
}

fn slice_words(ws: &Vec<String>, from: usize, to: usize) -> (r: Vec<String>)
    requires
        from <= to <= ws@.len(),
    ensures
        texts(r@) == texts(ws@).subrange(from as int, to as int),
{
    let mut r: Vec<String> = Vec::new();
    let mut i = from;
    while i < to
        invariant
            from <= i <= to,
            to <= ws@.len(),
            texts(r@) == texts(ws@).subrange(from as int, i as int),
        decreases to - i,
    {
        push_text(&mut r, ws[i].as_str());
        assert(texts(ws@).subrange(from as int, i + 1) =~= texts(ws@).subrange(from as int, i as int).push(ws@[i as int]@));
        i = i + 1;
    }
    r
}

/// The compile arguments of an edge, split by the schema: `-I` gives an include
/// directory, `-D` a define, anything else a compiler flag.
pub open spec fn split_args(ws: Seq<Seq<char>>) -> (Seq<Seq<char>>, Seq<Seq<char>>, Seq<Seq<char>>)
    decreases ws.len(),
{
    if ws.len() == 0 {
        (seq![], seq![], seq![])
    } else {
        let (c, d, i) = split_args(ws.drop_last());
        let w = ws.last();
        if w.len() > 2 && is_prefix("-I"@, w) {
            (c, d, i.push(w.subrange(2, w.len() as int)))
        } else if w.len() > 2 && is_prefix("-D"@, w) {
            (c, d.push(w.subrange(2, w.len() as int)), i)
        } else {
            (c.push(w), d, i)
        }
    }
}

fn split_args_exec(ws: &Vec<String>, from: usize) -> (r: (Vec<String>, Vec<String>, Vec<String>))
    requires
        from <= ws@.len(),
    ensures
        (texts(r.0@), texts(r.1@), texts(r.2@)) == split_args(texts(ws@).subrange(from as int, ws@.len() as int)),
{
    let mut c: Vec<String> = Vec::new();
    let mut d: Vec<String> = Vec::new();
    let mut inc: Vec<String> = Vec::new();
    let mut i = from;
    assert(texts(ws@).subrange(from as int, from as int) =~= seq![]);
    assert(texts(c@) =~= seq![]);
    assert(texts(d@) =~= seq![]);
    assert(texts(inc@) =~= seq![]);
    while i < ws.len()
        invariant
            from <= i <= ws@.len(),
            (texts(c@), texts(d@), texts(inc@)) == split_args(texts(ws@).subrange(from as int, i as int)),
        decreases ws@.len() - i,
    {
        let ghost next = texts(ws@).subrange(from as int, i + 1);
        assert(next.drop_last() =~= texts(ws@).subrange(from as int, i as int));
        assert(next.last() == ws@[i as int]@);
        let w = ws[i].as_str();
        let n = w.unicode_len();
        if n > 2 && starts_with(w, "-I") {
            push_text(&mut inc, w.substring_char(2, n));
        } else if n > 2 && starts_with(w, "-D") {
            push_text(&mut d, w.substring_char(2, n));
        } else {
            push_text(&mut c, w);
        }
        i = i + 1;
    }
    (c, d, inc)
}


/// Everything parsing gives an edge, order-only inputs included.
pub struct EdgeSpec {
    pub output: Seq<char>,
    pub kind: EdgeKind,
    pub inputs: Seq<Seq<char>>,
    pub implicit: Seq<Seq<char>>,
    pub order_only: Seq<Seq<char>>,
    pub cflags: Seq<Seq<char>>,
    pub defines: Seq<Seq<char>>,
    pub includes: Seq<Seq<char>>,
    pub link_flags: Seq<Seq<char>>,
}

pub open spec fn edge_spec(e: Edge) -> EdgeSpec {
    EdgeSpec {
        output: e.output@,
        kind: e.kind,
        inputs: texts(e.inputs@),
        implicit: texts(e.implicit@),
        order_only: texts(e.order_only@),
        cflags: texts(e.cflags@),
        defines: texts(e.defines@),
        includes: texts(e.includes@),
        link_flags: texts(e.link_flags@),
    }
}

pub open spec fn edge_specs(es: Seq<Edge>) -> Seq<EdgeSpec> {
    es.map_values(|e: Edge| edge_spec(e))
}

/// The edge a `build` line opens, before its bindings.
pub open spec fn new_edge(b: BuildLine) -> EdgeSpec {
    EdgeSpec {
        output: b.output,
        kind: rule_kind(b.rule),
        inputs: b.inputs,
        implicit: b.implicit,
        order_only: b.order_only,
        cflags: seq![],
        defines: seq![],
        includes: seq![],
        link_flags: seq![],
    }
}

/// Splitting at blanks, the state so far: the pieces and the piece being read.
pub open spec fn blank_scan(w: Seq<char>) -> (Seq<Seq<char>>, Seq<char>)
    decreases w.len(),
{
    if w.len() == 0 {
        (seq![], seq![])
    } else {
        let (ps, cur) = blank_scan(w.drop_last());
        if w.last() == ' ' || w.last() == '\t' {
            (flush(ps, cur), seq![])
        } else {
            (ps, cur.push(w.last()))
        }
    }
}

/// The blank-separated pieces of a word, as a variable's value may hold several.
pub open spec fn pieces(w: Seq<char>) -> Seq<Seq<char>> {
    flush(blank_scan(w).0, blank_scan(w).1)
}

/// The pieces of each word, in order.
pub open spec fn spread(ws: Seq<Seq<char>>) -> Seq<Seq<char>>
    decreases ws.len(),
{
    if ws.len() == 0 {
        seq![]
    } else {
        spread(ws.drop_last()) + pieces(ws.last())
    }
}

/// A binding `KEY = words...` under a `build` line: `ARGS` sets the compile schema,
/// `LINK_ARGS` the link flags; other keys change nothing.
pub open spec fn bind(e: EdgeSpec, ws: Seq<Seq<char>>) -> EdgeSpec {
    let rest = spread(ws.subrange(2, ws.len() as int));
    if ws[0] == "ARGS"@ {
        EdgeSpec { cflags: split_args(rest).0, defines: split_args(rest).1, includes: split_args(rest).2, ..e }
    } else if ws[0] == "LINK_ARGS"@ {
        EdgeSpec { link_flags: rest, ..e }
    } else {
        e
    }
}

/// The edges read so far, whether the last of them still takes bindings, and the
/// variables defined so far.
pub struct ParseState {
    pub edges: Seq<EdgeSpec>,
    pub open: bool,
    pub env: Seq<(Seq<char>, Seq<char>)>,
}

/// Words joined by single blanks.
pub open spec fn join_words(ws: Seq<Seq<char>>) -> Seq<char>
    decreases ws.len(),
{
    if ws.len() == 0 {
        seq![]
    } else if ws.len() == 1 {
        ws[0]
    } else {
        join_words(ws.drop_last()) + seq![' '] + ws.last()
    }
}

/// One line, the `idx`-th, its variables expanded: an indented binding of the open edge,
/// a `build` line, a variable definition `name = value`, or any other line (rules,
/// comments); the last two close the open edge.
pub open spec fn line_step(st: ParseState, line: Seq<char>, idx: int) -> Result<ParseState, ParseError> {
    let ws = words_of(st.env, line);
    if ws.len() == 0 {
        Ok(st)
    } else if line[0] == ' ' || line[0] == '\t' {
        if st.open && st.edges.len() > 0 && ws.len() >= 2 && ws[1] == seq!['='] {
            Ok(ParseState { edges: st.edges.update(st.edges.len() - 1, bind(st.edges.last(), ws)), ..st })
        } else {
            Ok(st)
        }
    } else if ws[0] == "build"@ {
        match build_line(ws) {
            None => Err(ParseError::Syntax(idx as usize)),
            Some(b) => Ok(ParseState { edges: st.edges.push(new_edge(b)), open: true, ..st }),
        }
    } else if ws.len() >= 2 && ws[1] == seq!['='] {
        Ok(ParseState { open: false, env: st.env.push((ws[0], join_words(ws.subrange(2, ws.len() as int)))), ..st })
    } else {
        Ok(ParseState { open: false, ..st })
    }
}

pub open spec fn parse_lines(ls: Seq<Seq<char>>) -> Result<ParseState, ParseError>
    decreases ls.len(),
{
    if ls.len() == 0 {
        Ok(ParseState { edges: seq![], open: false, env: seq![] })
    } else {
        match parse_lines(ls.drop_last()) {
            Err(e) => Err(e),
            Ok(st) => line_step(st, ls.last(), ls.len() - 1),
        }
    }
}

pub open spec fn split_lines(s: Seq<char>) -> (Seq<Seq<char>>, Seq<char>)
    decreases s.len(),
{
    if s.len() == 0 {
        (seq![], seq![])
    } else {
        let (ls, cur) = split_lines(s.drop_last());
        if s.last() == '\n' {
            (ls.push(cur), seq![])
        } else {
            (ls, cur.push(s.last()))
        }
    }
}

/// The lines of a text, split at each newline.
pub open spec fn lines_of(s: Seq<char>) -> Seq<Seq<char>> {
    split_lines(s).0.push(split_lines(s).1)
}

pub open spec fn distinct_outputs(es: Seq<EdgeSpec>) -> bool {
    forall|i: int, j: int| 0 <= i < es.len() && 0 <= j < es.len() && i != j ==> #[trigger] es[i].output != #[trigger] es[j].output
}

/// The edges of a build description, in the order of their `build` lines.
pub open spec fn parsed(text: Seq<char>) -> Result<Seq<EdgeSpec>, ParseError> {
    match parse_lines(lines_of(text)) {
        Err(e) => Err(e),
        Ok(st) => if distinct_outputs(st.edges) {
            Ok(st.edges)
        } else {
            Err(ParseError::DuplicateOutput)
        },
    }
}

fn split_lines_exec(text: &str) -> (r: Vec<String>)
    ensures
        texts(r@) == lines_of(text@),
{
    let n = text.unicode_len();
    let mut lines: Vec<String> = Vec::new();
    let mut cur = String::new();
    let mut i: usize = 0;
    assert(texts(lines@) =~= seq![]);
    while i < n
        invariant
            n == text@.len(),
            i <= n,
            texts(lines@) == split_lines(text@.subrange(0, i as int)).0,
            cur@ == split_lines(text@.subrange(0, i as int)).1,
        decreases n - i,
    {
        let ghost next = text@.subrange(0, i + 1);
        assert(next.drop_last() =~= text@.subrange(0, i as int));
        let c = text.get_char(i);
        if c == '\n' {
            let ghost prev = lines@;
            let ghost w = cur@;
            lines.push(cur);
            assert(texts(lines@) =~= texts(prev).push(w));
            cur = String::new();
        } else {
            let one = text.substring_char(i, i + 1);
            assert(one@ =~= seq![c]);
            cur.append(one);
        }
        i = i + 1;
    }
    assert(text@.subrange(0, n as int) =~= text@);
    let ghost prev = lines@;
    let ghost w = cur@;
    lines.push(cur);
    assert(texts(lines@) =~= texts(prev).push(w));
    lines
}

fn parse_build_line(ws: &Vec<String>) -> (r: Option<Edge>)
    ensures
        match r {
            Some(e) => build_line(texts(ws@)) matches Some(b) && edge_spec(e) == new_edge(b),
            None => build_line(texts(ws@)) is None,
        },
{
    let ghost t = texts(ws@);
    let n = ws.len();
    if n < 4 || !same_text(ws[0].as_str(), "build") || !same_text(ws[2].as_str(), ":") {
        proof {
            reveal_strlit(":");
        }
        assert(n >= 4 ==> t[2] == ws@[2]@);
        assert(":"@ =~= seq![':']);
        return None;
    }
    proof {
        reveal_strlit(":");
    }
    assert(":"@ =~= seq![':']);
    let dbl = find_word_exec(ws, "||", 4);
    let head = slice_words(ws, 0, dbl);
    let bar = find_word_exec(&head, "|", 4);
    assert(texts(head@) == t.subrange(0, dbl as int));
    let inputs = slice_words(ws, 4, bar);
    assert(t.subrange(0, dbl as int).subrange(4, bar as int) =~= t.subrange(4, bar as int));
    let implicit = if bar < dbl { slice_words(ws, bar + 1, dbl) } else { Vec::new() };
    let order_only = if dbl < n { slice_words(ws, dbl + 1, n) } else { Vec::new() };
    let e = Edge {
        output: ws[1].clone(),
        kind: rule_kind_of(ws[3].as_str()),
        inputs,
        implicit,
        order_only,
        cflags: Vec::new(),
        defines: Vec::new(),
        includes: Vec::new(),
        link_flags: Vec::new(),
    };
    assert(texts(e.implicit@) =~= (if bar < dbl { t.subrange(bar + 1, dbl as int) } else { seq![] }));
    assert(texts(e.order_only@) =~= (if dbl < n { t.subrange(dbl + 1, n as int) } else { seq![] }));
    assert(texts(e.cflags@) =~= seq![]);
    assert(texts(e.defines@) =~= seq![]);
    assert(texts(e.includes@) =~= seq![]);
    assert(texts(e.link_flags@) =~= seq![]);
    Some(e)
}


fn join_words_exec(ws: &Vec<String>, from: usize) -> (r: String)
    requires
        from <= ws@.len(),
    ensures
        r@ == join_words(texts(ws@).subrange(from as int, ws@.len() as int)),
{
    let mut r = String::new();
    let mut i = from;
    assert(texts(ws@).subrange(from as int, from as int) =~= seq![]);
    while i < ws.len()
        invariant
            from <= i <= ws@.len(),
            r@ == join_words(texts(ws@).subrange(from as int, i as int)),
        decreases ws@.len() - i,
    {
        let ghost next = texts(ws@).subrange(from as int, i + 1);
        assert(next.drop_last() =~= texts(ws@).subrange(from as int, i as int));
        assert(next.last() == ws@[i as int]@);
        if i > from {
            r.append(" ");
            proof {
                reveal_strlit(" ");
            }
            assert(" "@ =~= seq![' ']);
        } else {
            assert(next.len() == 1);
        }
        r.append(ws[i].as_str());
        assert(i > from ==> r@ =~= join_words(next));
        assert(i == from ==> r@ =~= join_words(next));
        i = i + 1;
    }
    r
}

fn push_pieces(r: &mut Vec<String>, w: &str)
    ensures
        texts(final(r)@) == texts(old(r)@) + pieces(w@),
{
    let ghost start = texts(r@);
    let n = w.unicode_len();
    let mut cur = String::new();
    let mut i: usize = 0;
    assert(start + seq![] =~= start);
    while i < n
        invariant
            n == w@.len(),
            i <= n,
            texts(r@) == start + blank_scan(w@.subrange(0, i as int)).0,
            cur@ == blank_scan(w@.subrange(0, i as int)).1,
        decreases n - i,
    {
        let ghost next = w@.subrange(0, i + 1);
        assert(next.drop_last() =~= w@.subrange(0, i as int));
        let c = w.get_char(i);
        let one = w.substring_char(i, i + 1);
        assert(one@ =~= seq![c]);
        if c == ' ' || c == '\t' {
            if cur.unicode_len() > 0 {
                let ghost prev = r@;
                let piece = cur.clone();
                r.push(piece);
                assert(texts(r@) =~= texts(prev).push(piece@));
                assert(start + flush(blank_scan(w@.subrange(0, i as int)).0, cur@) =~= texts(r@));
            }
            cur = String::new();
        } else {
            let ghost prev = cur@;
            cur.append(one);
            assert(cur@ =~= prev.push(c));
        }
        i = i + 1;
    }
    assert(w@.subrange(0, n as int) =~= w@);
    if cur.unicode_len() > 0 {
        let ghost prev = r@;
        let piece = cur.clone();
        r.push(piece);
        assert(texts(r@) =~= texts(prev).push(piece@));
    }
}

fn spread_exec(ws: &Vec<String>, from: usize) -> (r: Vec<String>)
    requires
        from <= ws@.len(),
    ensures
        texts(r@) == spread(texts(ws@).subrange(from as int, ws@.len() as int)),
{
    let mut r: Vec<String> = Vec::new();
    let mut i = from;
    assert(texts(r@) =~= spread(texts(ws@).subrange(from as int, from as int)));
    while i < ws.len()
        invariant
            from <= i <= ws@.len(),
            texts(r@) == spread(texts(ws@).subrange(from as int, i as int)),
        decreases ws@.len() - i,
    {
        let ghost next = texts(ws@).subrange(from as int, i + 1);
        assert(next.drop_last() =~= texts(ws@).subrange(from as int, i as int));
        assert(next.last() == ws@[i as int]@);
        push_pieces(&mut r, ws[i].as_str());
        i = i + 1;
    }
    r
}

fn bind_exec(e: Edge, ws: &Vec<String>) -> (r: Edge)
    requires
        ws@.len() >= 2,
    ensures
        edge_spec(r) == bind(edge_spec(e), texts(ws@)),
{
    let mut e = e;
    if same_text(ws[0].as_str(), "ARGS") {
        let rest = spread_exec(ws, 2);
        let (c, d, inc) = split_args_exec(&rest, 0);
        assert(texts(rest@).subrange(0, rest@.len() as int) =~= texts(rest@));
        e.cflags = c;
        e.defines = d;
        e.includes = inc;
    } else if same_text(ws[0].as_str(), "LINK_ARGS") {
        e.link_flags = spread_exec(ws, 2);
    }
    e
}

/// Reads a build description into its target graph: one edge per `build` line, in order,
/// with the `ARGS` and `LINK_ARGS` bindings under it; fails on a malformed `build` line or
/// on two edges with one output.
pub fn parse_build(text: &str) -> (r: Result<TargetGraph, ParseError>)
    ensures
        match r {
            Ok(g) => parsed(text@) == Ok::<Seq<EdgeSpec>, ParseError>(edge_specs(g.edges@)) && g.wf(),
            Err(e) => parsed(text@) == Err::<Seq<EdgeSpec>, ParseError>(e),
        },
{
    let lines = split_lines_exec(text);
    let ghost ls = texts(lines@);
    let mut edges: Vec<Edge> = Vec::new();
    let mut open = false;
    let mut env: Vec<(String, String)> = Vec::new();
    let mut i: usize = 0;
    assert(env_view(env@) =~= seq![]);
    assert(edge_specs(edges@) =~= seq![]);
    assert(ls.subrange(0, 0) =~= seq![]);
    while i < lines.len()
        invariant
            i <= lines@.len(),
            ls == texts(lines@),
            ls == lines_of(text@),
            parse_lines(ls.subrange(0, i as int)) == Ok::<ParseState, ParseError>(ParseState { edges: edge_specs(edges@), open, env: env_view(env@) }),
        decreases lines@.len() - i,
    {
        let ghost next = ls.subrange(0, i + 1);
        assert(next.drop_last() =~= ls.subrange(0, i as int));
        assert(next.last() == lines@[i as int]@);
        let line = lines[i].as_str();
        let ws = split_words(&env, line);
        let ghost st = ParseState { edges: edge_specs(edges@), open, env: env_view(env@) };
        if ws.len() == 0 {
        } else if line.get_char(0) == ' ' || line.get_char(0) == '\t' {
            if open && edges.len() > 0 && ws.len() >= 2 && same_text(ws[1].as_str(), "=") {
                proof {
                    reveal_strlit("=");
                }
                assert("="@ =~= seq!['=']);
                let last = edges.pop().unwrap();
                let bound = bind_exec(last, &ws);
                edges.push(bound);
                assert(edge_specs(edges@) =~= st.edges.update(st.edges.len() - 1, bind(st.edges.last(), texts(ws@))));
            } else {
                proof {
                    reveal_strlit("=");
                }
                assert("="@ =~= seq!['=']);
                assert(ws@.len() >= 2 ==> texts(ws@)[1] == ws@[1]@);
            }
        } else if same_text(ws[0].as_str(), "build") {
            match parse_build_line(&ws) {
                None => {
                    assert(texts(ws@)[0] == ws@[0]@);
                    assert(line_step(st, line@, i as int) == Err::<ParseState, ParseError>(ParseError::Syntax(i)));
                    proof {
                        lemma_parse_lines_fails_on(ls, i as int);
                    }
                    return Err(ParseError::Syntax(i));
                },
                Some(e) => {
                    let ghost prev = edges@;
                    edges.push(e);
                    assert(edge_specs(edges@) =~= edge_specs(prev).push(edge_spec(e)));
                    open = true;
                },
            }
        } else if ws.len() >= 2 && same_text(ws[1].as_str(), "=") {
            proof {
                reveal_strlit("=");
            }
            assert("="@ =~= seq!['=']);
            let value = join_words_exec(&ws, 2);
            let ghost prev = env@;
            env.push((ws[0].clone(), value));
            assert(env_view(env@) =~= env_view(prev).push((ws@[0]@, value@)));
            open = false;
        } else {
            proof {
                reveal_strlit("=");
            }
            assert("="@ =~= seq!['=']);
            assert(ws@.len() >= 2 ==> texts(ws@)[1] == ws@[1]@);
            open = false;
        }
        i = i + 1;
    }
    assert(ls.subrange(0, i as int) =~= ls);
    let ghost es = edge_specs(edges@);
    let ghost cg = crate::graph::closure_graph(edges@);
    assert forall|a: int| 0 <= a < edges@.len() implies #[trigger] cg[a].output == es[a].output by {}
    assert(distinct_outputs(es) == crate::graph::outputs_unique(cg)) by {
        if distinct_outputs(es) {
            assert forall|a: int, b: int| 0 <= a < cg.len() && 0 <= b < cg.len() && a != b implies #[trigger] cg[a].output != #[trigger] cg[b].output by {
                assert(es[a].output != es[b].output);
            }
        }
        if crate::graph::outputs_unique(cg) {
            assert forall|a: int, b: int| 0 <= a < es.len() && 0 <= b < es.len() && a != b implies #[trigger] es[a].output != #[trigger] es[b].output by {
                assert(cg[a].output != cg[b].output);
            }
        }
    }
    match TargetGraph::from_edges(edges) {
        Ok(g) => Ok(g),
        Err(_) => Err(ParseError::DuplicateOutput),
    }
}

/// A failing line fails the whole text.
proof fn lemma_parse_lines_fails_on(ls: Seq<Seq<char>>, i: int)
    requires
        0 <= i < ls.len(),
        parse_lines(ls.subrange(0, i + 1)) is Err,
    ensures
        parse_lines(ls) == parse_lines(ls.subrange(0, i + 1)),
    decreases ls.len(),
{
    if i + 1 < ls.len() {
        assert(ls.drop_last().subrange(0, i + 1) =~= ls.subrange(0, i + 1));
        lemma_parse_lines_fails_on(ls.drop_last(), i);
    } else {
        assert(ls.subrange(0, i + 1) =~= ls);
    }
}

} // verus!
