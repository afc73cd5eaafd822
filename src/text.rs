use vstd::prelude::*;

verus! {

/// `p` is a prefix of `s`, character by character.
pub open spec fn is_prefix(p: Seq<char>, s: Seq<char>) -> bool {
    p.len() <= s.len() && s.subrange(0, p.len() as int) == p
}

/// `p` is a suffix of `s`, character by character.
pub open spec fn is_suffix(p: Seq<char>, s: Seq<char>) -> bool {
    p.len() <= s.len() && s.subrange(s.len() - p.len(), s.len() as int) == p
}

/// `p` occurs somewhere in `s` as a contiguous run.
pub open spec fn occurs_in(p: Seq<char>, s: Seq<char>) -> bool {
    exists|i: int| 0 <= i && i + p.len() <= s.len() && #[trigger] s.subrange(i, i + p.len()) == p
}

/// Whole path components: `c` equals `p`, or `p` ends with `/` followed by `c`.
pub open spec fn path_ends_with(p: Seq<char>, c: Seq<char>) -> bool {
    p == c || (is_suffix(c, p) && p.len() > c.len() && p[p.len() - c.len() - 1] == '/')
}

/// Whole path components: `c` equals `p`, or `p` starts with `c` followed by `/`.
pub open spec fn path_starts_with(p: Seq<char>, c: Seq<char>) -> bool {
    p == c || (is_prefix(c, p) && p.len() > c.len() && p[c.len() as int] == '/')
}

/// Characters of `s` from index `i` on hold `p` at the same offsets.
fn matches_at(s: &str, p: &str, i: usize) -> (r: bool)
    requires
        i + p@.len() <= s@.len(),
        s@.len() <= usize::MAX,
    ensures
        r == (s@.subrange(i as int, i + p@.len()) == p@),
{
    let n = p.unicode_len();
    let mut k: usize = 0;
    while k < n
        invariant
            n == p@.len(),
            s@.len() <= usize::MAX,
            i + n <= s@.len(),
            k <= n,
            forall|j: int| 0 <= j < k ==> s@[i + j] == p@[j],
        decreases n - k,
    {
        if s.get_char(i + k) != p.get_char(k) {
            assert(s@.subrange(i as int, i + p@.len())[k as int] != p@[k as int]);
            return false;
        }
        k = k + 1;
    }
    assert(s@.subrange(i as int, i + p@.len()) =~= p@);
    true
}

/// Whether two strings hold the same characters.
pub fn same_text(a: &str, b: &str) -> (r: bool)
    ensures
        r == (a@ == b@),
{
    let n = a.unicode_len();
    if n != b.unicode_len() {
        return false;
    }
    let r = matches_at(a, b, 0);
    assert(a@.subrange(0, a@.len() as int) =~= a@);
    r
}

pub fn starts_with(s: &str, p: &str) -> (r: bool)
    ensures
        r == is_prefix(p@, s@),
{
    if p.unicode_len() > s.unicode_len() {
        return false;
    }
    matches_at(s, p, 0)
}

pub fn ends_with(s: &str, p: &str) -> (r: bool)
    ensures
        r == is_suffix(p@, s@),
{
    let n = s.unicode_len();
    let m = p.unicode_len();
    if m > n {
        return false;
    }
    matches_at(s, p, n - m)
}

pub fn contains(s: &str, p: &str) -> (r: bool)
    ensures
        r == occurs_in(p@, s@),
{
    let n = s.unicode_len();
    let m = p.unicode_len();
    if m > n {
        return false;
    }
    let mut i: usize = 0;
    while i <= n - m
        invariant
            n == s@.len(),
            m == p@.len(),
            m <= n,
            forall|j: int| 0 <= j < i ==> #[trigger] s@.subrange(j, j + m) != p@,
        decreases n - m + 1 - i,
    {
        if matches_at(s, p, i) {
            return true;
        }
        if i == n - m {
            return false;
        }
        i = i + 1;
    }
    false
}

pub fn path_ends_with_exec(p: &str, c: &str) -> (r: bool)
    ensures
        r == path_ends_with(p@, c@),
{
    if same_text(p, c) {
        return true;
    }
    let n = p.unicode_len();
    let m = c.unicode_len();
    if m >= n {
        return false;
    }
    ends_with(p, c) && p.get_char(n - m - 1) == '/'
}

pub fn path_starts_with_exec(p: &str, c: &str) -> (r: bool)
    ensures
        r == path_starts_with(p@, c@),
{
    if same_text(p, c) {
        return true;
    }
    let n = p.unicode_len();
    let m = c.unicode_len();
    if m >= n {
        return false;
    }
    starts_with(p, c) && p.get_char(m) == '/'
}


/// Index of the last `c` in `p`, or -1 where there is none.
pub open spec fn last_of(p: Seq<char>, c: char) -> int
    decreases p.len(),
{
    if p.len() == 0 {
        -1
    } else if p.last() == c {
        p.len() - 1
    } else {
        last_of(p.drop_last(), c)
    }
}

/// The last component of a path: what follows its last `/`.
pub open spec fn file_name(p: Seq<char>) -> Seq<char> {
    p.subrange(last_of(p, '/') + 1, p.len() as int)
}

/// The file name without its extension: up to the last `.`, unless that dot opens the
/// name (a hidden file) or the name is `..`.
pub open spec fn file_stem(p: Seq<char>) -> Seq<char> {
    let n = file_name(p);
    if n == seq!['.', '.'] || last_of(n, '.') <= 0 {
        n
    } else {
        n.subrange(0, last_of(n, '.'))
    }
}

/// `b` appended to directory `a` as one more component.
pub open spec fn join_path(a: Seq<char>, b: Seq<char>) -> Seq<char> {
    if a.len() == 0 {
        b
    } else if a.last() == '/' {
        a + b
    } else {
        a + seq!['/'] + b
    }
}

pub fn last_index(s: &str, c: char) -> (r: Option<usize>)
    ensures
        match r {
            Some(i) => last_of(s@, c) == i as int && i < s@.len(),
            None => last_of(s@, c) == -1,
        },
{
    let n = s.unicode_len();
    let mut found: Option<usize> = None;
    let mut i: usize = 0;
    assert(s@.subrange(0, 0).len() == 0);
    while i < n
        invariant
            n == s@.len(),
            i <= n,
            match found {
                Some(j) => last_of(s@.subrange(0, i as int), c) == j as int && j < i,
                None => last_of(s@.subrange(0, i as int), c) == -1,
            },
        decreases n - i,
    {
        let ghost next = s@.subrange(0, i + 1);
        assert(next.drop_last() =~= s@.subrange(0, i as int));
        if s.get_char(i) == c {
            found = Some(i);
        }
        i = i + 1;
    }
    assert(s@.subrange(0, n as int) =~= s@);
    found
}

pub fn file_name_of(p: &str) -> (r: &str)
    ensures
        r@ == file_name(p@),
{
    let n = p.unicode_len();
    match last_index(p, '/') {
        Some(i) => p.substring_char(i + 1, n),
        None => p.substring_char(0, n),
    }
}

pub fn file_stem_of(p: &str) -> (r: &str)
    ensures
        r@ == file_stem(p@),
{
    let name = file_name_of(p);
    if same_text(name, "..") {
        proof {
            reveal_strlit("..");
        }
        assert(name@ =~= seq!['.', '.']);
        return name;
    }
    proof {
        reveal_strlit("..");
        assert(".."@ =~= seq!['.', '.']);
    }
    assert(name@ != seq!['.', '.']);
    match last_index(name, '.') {
        Some(i) => {
            if i == 0 {
                name
            } else {
                name.substring_char(0, i)
            }
        },
        None => name,
    }
}

pub fn join_path_exec(a: &str, b: &str) -> (r: String)
    ensures
        r@ == join_path(a@, b@),
{
    let n = a.unicode_len();
    let mut r = a.to_string();
    if n > 0 && a.get_char(n - 1) != '/' {
        r.append("/");
        proof {
            reveal_strlit("/");
        }
        assert("/"@ =~= seq!['/']);
    }
    r.append(b);
    r
}

} // verus!
