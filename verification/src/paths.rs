//! Paths as text.
//!
//! A path is a string whose components are separated by `/`. The functions
//! here follow the conventions of Unix paths: a path is absolute when it
//! starts with the separator, joining an absolute path onto a base replaces
//! the base, and the final component of a path is found after dropping
//! trailing separators and trailing `.` components.

use vstd::prelude::*;

verus! {

/// Whether `p` starts at the root.
pub open spec fn is_absolute(p: Seq<char>) -> bool {
    p.len() > 0 && p[0] == '/'
}

/// The path that `name` denotes when it is looked up from `base`.
pub open spec fn join(base: Seq<char>, name: Seq<char>) -> Seq<char> {
    if is_absolute(name) {
        name
    } else if base.len() == 0 || base.last() == '/' {
        base + name
    } else {
        base + seq!['/'] + name
    }
}

/// The length of `p` once its trailing separators and trailing `.`
/// components are dropped.
pub open spec fn trimmed_len(p: Seq<char>) -> nat
    decreases p.len(),
{
    if p.len() >= 1 && p.last() == '/' {
        trimmed_len(p.drop_last())
    } else if p.len() >= 2 && p[p.len() - 1] == '.' && p[p.len() - 2] == '/' {
        trimmed_len(p.subrange(0, p.len() - 2))
    } else {
        p.len()
    }
}

/// The index at which the component of `p` that ends before `end` starts.
pub open spec fn component_start(p: Seq<char>, end: int) -> int
    decreases end,
{
    if end <= 0 {
        0
    } else if p[end - 1] == '/' {
        end
    } else {
        component_start(p, end - 1)
    }
}

/// Whether `name` can be the name of a directory entry: not empty, free of
/// separators, and neither `.` nor `..`.
pub open spec fn is_plain_name(name: Seq<char>) -> bool {
    &&& name.len() > 0
    &&& forall|i: int| 0 <= i < name.len() ==> name[i] != '/'
    &&& name != seq!['.']
    &&& name != seq!['.', '.']
}

/// The final component of `p`, if it names an entry: none for the root, for
/// the empty path, and for a path that ends in `.` alone or in `..`.
pub open spec fn file_name(p: Seq<char>) -> Option<Seq<char>> {
    let end = trimmed_len(p) as int;
    let name = p.subrange(component_start(p, end), end);
    if name.len() == 0 || name == seq!['.'] || name == seq!['.', '.'] {
        None
    } else {
        Some(name)
    }
}

/// `trimmed_len` never exceeds the length of the path.
pub proof fn lemma_trimmed_len_bound(p: Seq<char>)
    ensures
        trimmed_len(p) <= p.len(),
    decreases p.len(),
{
    if p.len() >= 1 && p.last() == '/' {
        lemma_trimmed_len_bound(p.drop_last());
    } else if p.len() >= 2 && p[p.len() - 1] == '.' && p[p.len() - 2] == '/' {
        lemma_trimmed_len_bound(p.subrange(0, p.len() - 2));
    }
}

/// A component starts within the path, at its beginning or just behind a
/// separator, and holds no separator.
pub proof fn lemma_component_start_bounds(p: Seq<char>, end: int)
    requires
        0 <= end <= p.len(),
    ensures
        0 <= component_start(p, end) <= end,
        component_start(p, end) == 0 || p[component_start(p, end) - 1] == '/',
        forall|i: int| component_start(p, end) <= i < end ==> p[i] != '/',
    decreases end,
{
    if end > 0 && p[end - 1] != '/' {
        lemma_component_start_bounds(p, end - 1);
    }
}

/// Where a stretch of the path holds no separator and begins the path or
/// follows a separator, the component that ends with it starts with it.
pub proof fn lemma_component_start_is(p: Seq<char>, start: int, end: int)
    requires
        0 <= start <= end <= p.len(),
        start == 0 || p[start - 1] == '/',
        forall|i: int| start <= i < end ==> p[i] != '/',
    ensures
        component_start(p, end) == start,
    decreases end - start,
{
    if start < end {
        lemma_component_start_is(p, start, end - 1);
    }
}

/// A final component is a plain name.
pub proof fn lemma_file_name_is_plain(p: Seq<char>)
    ensures
        file_name(p) matches Some(name) ==> is_plain_name(name),
{
    lemma_trimmed_len_bound(p);
    lemma_component_start_bounds(p, trimmed_len(p) as int);
}

/// A plain name joined onto any base is the final component of the result.
pub proof fn lemma_file_name_of_join(base: Seq<char>, name: Seq<char>)
    requires
        is_plain_name(name),
    ensures
        file_name(join(base, name)) == Some(name),
{
    let p = join(base, name);
    let start = p.len() - name.len();
    assert(!is_absolute(name));
    assert(forall|i: int| 0 <= i < name.len() ==> p[start + i] == name[i]);
    assert(p.last() == name.last());
    assert(trimmed_len(p) == p.len()) by {
        if name.len() >= 2 {
            assert(p[p.len() - 2] == name[name.len() - 2]);
        } else {
            assert(name =~= seq![name[0]]);
        }
    }
    assert(start == 0 || p[start - 1] == '/');
    assert forall|i: int| start <= i < p.len() implies p[i] != '/' by {
        assert(p[i] == name[i - start]);
    }
    lemma_component_start_is(p, start, p.len() as int);
    assert(p.subrange(start, p.len() as int) =~= name);
}

/// Whether `p` starts at the root.
pub fn path_is_absolute(p: &str) -> (r: bool)
    ensures
        r == is_absolute(p@),
{
    p.unicode_len() > 0 && p.get_char(0) == '/'
}

/// Joins `name` onto `base`.
pub fn join_path(base: &str, name: &str) -> (r: String)
    ensures
        r@ == join(base@, name@),
{
    if path_is_absolute(name) {
        String::from_str(name)
    } else {
        let n = base.unicode_len();
        let mut r = String::from_str(base);
        if n > 0 && base.get_char(n - 1) != '/' {
            proof {
                reveal_strlit("/");
            }
            r.append("/");
            assert(r@ =~= base@ + seq!['/']);
        }
        r.append(name);
        r
    }
}

/// The characters of `s`, one by one.
pub fn chars_of(s: &str) -> (r: Vec<char>)
    ensures
        r@ == s@,
{
    let mut r: Vec<char> = Vec::new();
    for c in it: s.chars()
        invariant
            r@ == it.seq().take(it.index() as int),
            it.seq() == s@,
    {
        r.push(c);
    }
    r
}

/// The final component of `p`, if it names an entry.
pub fn path_file_name(p: &str) -> (r: Option<String>)
    ensures
        match r {
            Some(name) => file_name(p@) == Some(name@),
            None => file_name(p@) is None,
        },
{
    let chars = chars_of(p);
    let mut end: usize = chars.len();
    assert(p@.take(end as int) =~= p@);
    loop
        invariant
            chars@ == p@,
            end <= chars.len(),
            trimmed_len(p@) == trimmed_len(p@.take(end as int)),
        ensures
            end <= chars.len(),
            trimmed_len(p@) == end,
        decreases end,
    {
        let ghost q = p@.take(end as int);
        if end >= 1 && chars[end - 1] == '/' {
            assert(q.drop_last() =~= p@.take(end - 1));
            end = end - 1;
        } else if end >= 2 && chars[end - 1] == '.' && chars[end - 2] == '/' {
            assert(q.subrange(0, q.len() - 2) =~= p@.take(end - 2));
            end = end - 2;
        } else {
            break ;
        }
    }
    let mut start: usize = end;
    while start > 0 && chars[start - 1] != '/'
        invariant
            chars@ == p@,
            start <= end <= chars.len(),
            component_start(p@, end as int) == component_start(p@, start as int),
        decreases start,
    {
        start = start - 1;
    }
    let len = end - start;
    if len == 0 {
        None
    } else if len == 1 && chars[start] == '.' {
        assert(p@.subrange(start as int, end as int) =~= seq!['.']);
        None
    } else if len == 2 && chars[start] == '.' && chars[start + 1] == '.' {
        assert(p@.subrange(start as int, end as int) =~= seq!['.', '.']);
        None
    } else {
        let name = String::from_str(p.substring_char(start, end));
        proof {
            let n = p@.subrange(start as int, end as int);
            if n == seq!['.'] {
                assert(n.len() == 1 && n[0] == '.');
            }
            if n == seq!['.', '.'] {
                assert(n.len() == 2 && n[0] == '.' && n[1] == '.');
            }
        }
        Some(name)
    }
}

} // verus!
