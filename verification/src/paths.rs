//! Joining of path strings with the rules of `Path::join`.
use vstd::prelude::*;

use crate::text::{
    chars_occur_at,
    occurs_at,
    spec_ends_with,
    spec_starts_with,
    str_ends_with,
    str_starts_with,
    string_of,
    to_chars,
};

verus! {

broadcast use vstd::string::group_string_axioms;

/// `Path::join` on path strings: an absolute `rel` replaces `base`; an empty
/// `base` yields `rel`; otherwise the two are joined with one `/` (none is
/// added when `base` already ends with one).
pub open spec fn spec_path_join(base: Seq<char>, rel: Seq<char>) -> Seq<char> {
    if spec_starts_with(rel, seq!['/']) {
        rel
    } else if base.len() == 0 {
        rel
    } else if spec_ends_with(base, seq!['/']) {
        base + rel
    } else {
        base + seq!['/'] + rel
    }
}

/// Joins `rel` onto `base` as `Path::join` does.
pub fn path_join(base: &str, rel: &str) -> (r: String)
    ensures
        r@ == spec_path_join(base@, rel@),
{
    proof {
        reveal_strlit("/");
        assert("/"@ =~= seq!['/']);
    }
    if str_starts_with(rel, "/") {
        return rel.to_string();
    }
    if base.unicode_len() == 0 {
        return rel.to_string();
    }
    let mut out = base.to_string();
    if !str_ends_with(base, "/") {
        out.append("/");
    }
    out.append(rel);
    out
}

/// `s` without its leading `/`s.
pub open spec fn spec_trim_slashes(s: Seq<char>) -> Seq<char>
    decreases s.len(),
{
    if s.len() > 0 && s[0] == '/' {
        spec_trim_slashes(s.drop_first())
    } else {
        s
    }
}

/// `path` relative to `base`, as `Path::strip_prefix` gives it for a path
/// that a directory walk produced under `base`: when `path` starts with
/// `base` at a component boundary, the rest without its leading `/`s; an
/// empty `base` leaves `path` as it is; otherwise `None`.
pub open spec fn spec_relative_to(path: Seq<char>, base: Seq<char>) -> Option<Seq<char>> {
    if base.len() == 0 {
        Some(path)
    } else if spec_starts_with(path, base) && (path.len() == base.len() || base.last() == '/'
        || path[base.len() as int] == '/') {
        Some(spec_trim_slashes(path.subrange(base.len() as int, path.len() as int)))
    } else {
        None
    }
}

/// The path relative to `base` (see `spec_relative_to`).
pub fn relative_to(path: &str, base: &str) -> (r: Option<String>)
    ensures
        match spec_relative_to(path@, base@) {
            Some(x) => r matches Some(y) && y@ == x,
            None => r is None,
        },
{
    let p = to_chars(path);
    let b = to_chars(base);
    if b.len() == 0 {
        return Some(path.to_string());
    }
    if !chars_occur_at(&p, &b, 0) {
        assert(!spec_starts_with(path@, base@)) by {
            if spec_starts_with(path@, base@) {
                assert(occurs_at(p@, b@, 0));
            }
        }
        return None;
    }
    assert(p@.subrange(0, b@.len() as int) =~= b@);
    let n = p.len();
    let k = b.len();
    if !(n == k || b[k - 1] == '/' || p[k] == '/') {
        return None;
    }
    let mut i = k;
    proof {
        assert(p@.subrange(k as int, n as int).subrange(0, 0) =~= Seq::<char>::empty());
    }
    while i < n && p[i] == '/'
        invariant
            k <= i <= n,
            n == p@.len(),
            spec_trim_slashes(p@.subrange(k as int, n as int)) == spec_trim_slashes(
                p@.subrange(i as int, n as int),
            ),
        decreases n - i,
    {
        assert(p@.subrange(i as int, n as int).drop_first() =~= p@.subrange(i + 1, n as int));
        i += 1;
    }
    proof {
        let rest = p@.subrange(i as int, n as int);
        if rest.len() > 0 {
            assert(rest[0] == p@[i as int]);
        }
    }
    Some(string_of(&p, i, n))
}

/// `path` has a component equal to `name`: `name` stands between `/`s or
/// the ends.
pub open spec fn spec_has_component(path: Seq<char>, name: Seq<char>) -> bool {
    exists|i: int|
        #[trigger] occurs_at(path, name, i) && (i == 0 || path[i - 1] == '/') && (i + name.len()
            == path.len() || path[i + name.len()] == '/')
}

/// Whether `path` has a component equal to `name`.
pub fn has_component(path: &str, name: &str) -> (r: bool)
    ensures
        r == spec_has_component(path@, name@),
{
    let p = to_chars(path);
    let m = to_chars(name);
    let n = p.len();
    let mut i: usize = 0;
    while i < n
        invariant
            i <= n,
            n == p@.len(),
            p@ == path@,
            m@ == name@,
            forall|j: int|
                0 <= j < i ==> !(#[trigger] occurs_at(p@, m@, j) && (j == 0 || p@[j - 1] == '/') && (j
                    + m@.len() == p@.len() || p@[j + m@.len()] == '/')),
        decreases n - i,
    {
        if chars_occur_at(&p, &m, i) {
            let end = i + m.len();
            if (i == 0 || p[i - 1] == '/') && (end == n || p[end] == '/') {
                return true;
            }
        }
        i += 1;
    }
    if chars_occur_at(&p, &m, n) {
        let end = n + m.len();
        if (n == 0 || p[n - 1] == '/') && end == n {
            return true;
        }
    }
    proof {
        if spec_has_component(path@, name@) {
            let j = choose|j: int|
                #[trigger] occurs_at(p@, m@, j) && (j == 0 || p@[j - 1] == '/') && (j + m@.len()
                    == p@.len() || p@[j + m@.len()] == '/');
            assert(j <= n);
        }
    }
    false
}

} // verus!
