//! Lexical path handling: joining a client path onto a repository root and
//! keeping the result inside that root.

use vstd::prelude::*;

verus! {

/// The lexical normal form of a path as `path_clean::clean` computes it.
pub uninterp spec fn cleaned(path: Seq<char>) -> Seq<char>;

/// The component starting at `j` is neither empty, `.` nor `..`.
pub open spec fn plain_component_at(p: Seq<char>, j: int) -> bool {
    &&& p[j] != '/'
    &&& !(p[j] == '.' && (j + 1 == p.len() || p[j + 1] == '/'))
    &&& !(p[j] == '.' && j + 1 < p.len() && p[j + 1] == '.' && (j + 2 == p.len() || p[j + 2]
        == '/'))
}

/// An absolute path of one or more plain components, single separators and no
/// trailing separator: a path that normalisation leaves as it is.
pub open spec fn is_plain_absolute(p: Seq<char>) -> bool {
    &&& p.len() >= 2
    &&& p[0] == '/'
    &&& p.last() != '/'
    &&& forall|i: int| 0 <= i < p.len() - 1 && #[trigger] p[i] == '/' ==> plain_component_at(p, i + 1)
}

/// A relative path of one or more plain components.
pub open spec fn is_plain_relative(p: Seq<char>) -> bool {
    is_plain_absolute(seq!['/'] + p)
}

/// What normalisation makes of a path: a path of plain components, absolute or
/// relative, is left as it is.
pub open spec fn normalized(p: Seq<char>) -> Seq<char> {
    if is_plain_absolute(p) || is_plain_relative(p) {
        p
    } else {
        cleaned(p)
    }
}

/// `relative` appended to `base` as a path: an absolute `relative` replaces the
/// base; otherwise one separator goes between them unless the base is empty or
/// already ends in one.
pub open spec fn joined(base: Seq<char>, relative: Seq<char>) -> Seq<char> {
    if base.len() == 0 || (relative.len() > 0 && relative[0] == '/') {
        relative
    } else if base.last() == '/' {
        base + relative
    } else {
        base + seq!['/'] + relative
    }
}

/// `path` is the root itself or lies below it, component-wise.
pub open spec fn within_root(path: Seq<char>, root: Seq<char>) -> bool {
    &&& root.len() > 0
    &&& root.len() <= path.len()
    &&& path.subrange(0, root.len() as int) == root
    &&& (path.len() == root.len() || root.last() == '/' || path[root.len() as int] == '/')
}

/// A path without its first component when that component is `..`.
pub open spec fn without_parent_prefix(p: Seq<char>) -> Seq<char> {
    if p.len() >= 3 && p[0] == '.' && p[1] == '.' && p[2] == '/' {
        p.subrange(3, p.len() as int)
    } else if p == seq!['.', '.'] {
        Seq::empty()
    } else {
        p
    }
}

/// Relies on `path_clean::clean`: lexical normalisation of a path (repeated
/// separators, `.` and `..` components); a path of plain components comes back as it is.
#[verifier::external_body]
pub(crate) fn clean_path(path: &str) -> (r: String)
    ensures
        r@ == cleaned(path@),
        r@ == normalized(path@),
{
    path_clean::clean(path).to_string_lossy().into_owned()
}

/// Whether `s` begins with `prefix`.
pub fn has_prefix(s: &str, prefix: &str) -> (r: bool)
    ensures
        r == (prefix@.len() <= s@.len() && s@.subrange(0, prefix@.len() as int) == prefix@),
{
    let n = prefix.unicode_len();
    let m = s.unicode_len();
    if n > m {
        return false;
    }
    let mut i: usize = 0;
    while i < n
        invariant
            n == prefix@.len(),
            m == s@.len(),
            n <= m,
            i <= n,
            s@.subrange(0, i as int) == prefix@.subrange(0, i as int),
        decreases n - i,
    {
        if s.get_char(i) != prefix.get_char(i) {
            assert(s@.subrange(0, n as int)[i as int] != prefix@[i as int]);
            return false;
        }
        assert(s@.subrange(0, i + 1) == s@.subrange(0, i as int).push(s@[i as int]));
        assert(prefix@.subrange(0, i + 1) == prefix@.subrange(0, i as int).push(prefix@[i as int]));
        i = i + 1;
    }
    assert(prefix@.subrange(0, n as int) == prefix@);
    true
}

/// Appends `relative` to `base` as a path.
pub fn join_path(base: &str, relative: &str) -> (r: String)
    ensures
        r@ == joined(base@, relative@),
{
    proof {
        reveal_strlit("/");
    }
    let n = base.unicode_len();
    let rn = relative.unicode_len();
    if n == 0 || (rn > 0 && relative.get_char(0) == '/') {
        return String::from_str(relative);
    }
    let mut r = String::from_str(base);
    if base.get_char(n - 1) != '/' {
        r.append("/");
    }
    r.append(relative);
    r
}

/// Whether `path` is `root` or lies below it.
pub fn is_within_root(path: &str, root: &str) -> (r: bool)
    ensures
        r == within_root(path@, root@),
{
    let n = root.unicode_len();
    if n == 0 || !has_prefix(path, root) {
        return false;
    }
    let m = path.unicode_len();
    m == n || root.get_char(n - 1) == '/' || path.get_char(n) == '/'
}

/// Drops a leading `..` component.
pub fn strip_parent_prefix(path: &str) -> (r: String)
    ensures
        r@ == without_parent_prefix(path@),
{
    let n = path.unicode_len();
    if n >= 3 && path.get_char(0) == '.' && path.get_char(1) == '.' && path.get_char(2) == '/' {
        return String::from_str(path.substring_char(3, n));
    }
    if n == 2 && path.get_char(0) == '.' && path.get_char(1) == '.' {
        assert(path@ == seq!['.', '.']);
        return String::new();
    }
    proof {
        if path@ == seq!['.', '.'] {
            assert(path@[0] == '.' && path@[1] == '.');
        }
    }
    String::from_str(path)
}

/// The client-supplied part of a path as it is handed to a repository: normalised,
/// with one leading `..` component dropped.
pub fn sanitize_relative(path: &str) -> (r: String)
    ensures
        r@ == without_parent_prefix(normalized(path@)),
{
    let c = clean_path(path);
    strip_parent_prefix(c.as_str())
}

} // verus!

verus! {

/// A plain relative path joined onto a plain absolute root is the root, one
/// separator and the relative path, and is itself plain.
pub proof fn plain_join_is_plain(root: Seq<char>, relative: Seq<char>)
    requires
        is_plain_absolute(root),
        is_plain_relative(relative),
    ensures
        joined(root, relative) == root + seq!['/'] + relative,
        is_plain_absolute(root + seq!['/'] + relative),
{
    let s = seq!['/'] + relative;
    let q = root + seq!['/'] + relative;
    assert(q == root + s);
    let n = root.len() as int;
    assert(s[0] == '/');
    assert(plain_component_at(s, 1));
    assert(relative[0] == s[1]);
    assert forall|i: int| 0 <= i < q.len() - 1 && #[trigger] q[i] == '/' implies plain_component_at(
        q,
        i + 1,
    ) by {
        if i < n - 1 {
            assert(q[i] == root[i]);
            assert(plain_component_at(root, i + 1));
            let j = i + 1;
            assert(q[j] == root[j]);
            if j + 1 < n {
                assert(q[j + 1] == root[j + 1]);
            } else {
                assert(q[j + 1] == '/');
            }
            if j + 2 < n {
                assert(q[j + 2] == root[j + 2]);
            }
        } else if i == n - 1 {
            assert(q[i] == root.last());
        } else {
            let k = i - n;
            assert(q[i] == s[k]);
            assert(plain_component_at(s, k + 1));
            assert(q[i + 1] == s[k + 1]);
            if k + 2 < s.len() {
                assert(q[i + 2] == s[k + 2]);
            }
            if k + 3 < s.len() {
                assert(q[i + 3] == s[k + 3]);
            }
        }
    }
    assert(q.last() == s.last());
}

/// A plain relative path is kept by normalisation and has no leading `..` to drop.
pub proof fn plain_relative_is_kept(relative: Seq<char>)
    requires
        is_plain_relative(relative),
    ensures
        without_parent_prefix(normalized(relative)) == relative,
{
    let s = seq!['/'] + relative;
    assert(s[0] == '/');
    assert(plain_component_at(s, 1));
    assert(relative[0] == s[1]);
    if relative.len() >= 2 {
        assert(relative[1] == s[2]);
    }
    if relative.len() >= 3 {
        assert(relative[2] == s[3]);
    }
    if relative == seq!['.', '.'] {
        assert(relative[0] == '.' && relative[1] == '.' && s.len() == 3);
    }
}

} // verus!
