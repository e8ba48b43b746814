//! Path handling.
//!
//! Paths are absolute, `/`-separated strings. A path naming a directory ends
//! with a trailing separator; a path naming a leaf object does not. Every
//! path splits into a parent namespace (everything but the final segment,
//! with no trailing separator except for the root namespace `/`) and a leaf
//! name (the final segment, keeping the trailing separator of a directory).

use vstd::prelude::*;
use vstd::string::*;

verus! {

/// A root is normalized when it is absolute and slash-terminated.
pub open spec fn is_normalized_root(s: Seq<char>) -> bool {
    s.len() > 0 && s[0] == '/' && s[s.len() - 1] == '/'
}

/// An absolute path starts with the separator.
pub open spec fn is_abs_path(s: Seq<char>) -> bool {
    s.len() > 0 && s[0] == '/'
}

/// A path names a directory exactly when it ends with the separator.
pub open spec fn is_dir_path(s: Seq<char>) -> bool {
    s.len() > 0 && s[s.len() - 1] == '/'
}

/// A valid leaf name: non-empty, and the separator may appear only as its
/// final character (marking a directory entry).
pub open spec fn is_valid_name(s: Seq<char>) -> bool {
    s.len() > 0 && forall|i: int| 0 <= i < s.len() - 1 ==> s[i] != '/'
}

/// `c` lies directly inside directory `d`: it extends `d` by one valid
/// segment.
pub open spec fn is_child_of(d: Seq<char>, c: Seq<char>) -> bool {
    &&& is_dir_path(d)
    &&& d.len() < c.len()
    &&& c.subrange(0, d.len() as int) == d
    &&& is_valid_name(c.subrange(d.len() as int, c.len() as int))
}

/// `a` is a strict ancestor directory of `p`.
pub open spec fn is_ancestor_of(a: Seq<char>, p: Seq<char>) -> bool {
    &&& is_dir_path(a)
    &&& a.len() < p.len()
    &&& p.subrange(0, a.len() as int) == a
}

/// The path with a single trailing separator removed, unless the path is the
/// root or has none.
pub open spec fn effective_path(p: Seq<char>) -> Seq<char> {
    if p.len() > 1 && p[p.len() - 1] == '/' {
        p.drop_last()
    } else {
        p
    }
}

/// The index of the last separator of `s`, or `-1` when there is none.
pub open spec fn last_slash_index(s: Seq<char>) -> int
    decreases s.len(),
{
    if s.len() == 0 {
        -1
    } else if s[s.len() - 1] == '/' {
        s.len() - 1
    } else {
        last_slash_index(s.drop_last())
    }
}

/// The parent namespace of a path: everything before the final segment, with
/// no trailing separator; the root namespace is `/`.
pub open spec fn parent_of(p: Seq<char>) -> Seq<char> {
    let e = effective_path(p);
    let i = last_slash_index(e);
    if i <= 0 {
        seq!['/']
    } else {
        e.subrange(0, i)
    }
}

/// The leaf name of a path: the final segment, keeping the trailing
/// separator of a directory path.
pub open spec fn basename_of(p: Seq<char>) -> Seq<char> {
    let e = effective_path(p);
    let i = last_slash_index(e);
    p.subrange(i + 1, p.len() as int)
}

/// Joining a namespace and a leaf name yields the path whose parent is the
/// namespace and whose leaf is the name.
pub open spec fn join_of(ns: Seq<char>, name: Seq<char>) -> Seq<char> {
    if ns == seq!['/'] {
        seq!['/'] + name
    } else {
        ns + seq!['/'] + name
    }
}

/// A normalized root: `/` for the empty string, else the input with a
/// leading and a trailing separator added where missing.
pub open spec fn normalized_root_of(s: Seq<char>) -> Seq<char> {
    if s.len() == 0 {
        seq!['/']
    } else {
        let t = if s[0] == '/' {
            s
        } else {
            seq!['/'] + s
        };
        if t[t.len() - 1] == '/' {
            t
        } else {
            t + seq!['/']
        }
    }
}

/// Normalizing is idempotent, and its result is always a normalized root.
pub proof fn lemma_normalized_root_idempotent(s: Seq<char>)
    ensures
        is_normalized_root(normalized_root_of(s)),
        is_normalized_root(s) ==> normalized_root_of(s) == s,
{
    if s.len() == 0 {
        assert(normalized_root_of(s) =~= seq!['/']);
        assert(normalized_root_of(s)[0] == '/');
    } else {
        let t = if s[0] == '/' {
            s
        } else {
            seq!['/'] + s
        };
        assert(t[0] == '/');
        let r = if t[t.len() - 1] == '/' {
            t
        } else {
            t + seq!['/']
        };
        assert(r[0] == '/' && r[r.len() - 1] == '/');
    }
}

/// The path with all leading separators removed.
pub open spec fn strip_leading_slashes(p: Seq<char>) -> Seq<char>
    decreases p.len(),
{
    if p.len() > 0 && p[0] == '/' {
        strip_leading_slashes(p.skip(1))
    } else {
        p
    }
}

/// An absolute path built from a normalized root and a caller-supplied path:
/// the root followed by the path stripped of leading separators.
pub open spec fn abs_path_of(root: Seq<char>, p: Seq<char>) -> Seq<char> {
    root + strip_leading_slashes(p)
}

/// The path with all trailing separators removed, down to the root.
pub open spec fn parent_form_of(p: Seq<char>) -> Seq<char>
    decreases p.len(),
{
    if p.len() > 1 && p[p.len() - 1] == '/' {
        parent_form_of(p.drop_last())
    } else {
        p
    }
}

/// A namespace in parent form: the root, or an absolute path without a
/// trailing separator.
pub open spec fn is_parent_form(ns: Seq<char>) -> bool {
    ns == seq!['/'] || (is_abs_path(ns) && ns[ns.len() - 1] != '/')
}

/// Stripping trailing separators from an absolute path yields a parent form.
pub proof fn lemma_parent_form(p: Seq<char>)
    requires
        is_abs_path(p),
    ensures
        is_parent_form(parent_form_of(p)),
    decreases p.len(),
{
    if p.len() > 1 && p[p.len() - 1] == '/' {
        assert(p.drop_last()[0] == p[0]);
        lemma_parent_form(p.drop_last());
    } else {
        if p.len() == 1 {
            assert(p =~= seq!['/']);
        }
    }
}

/// `a` starts `b`.
pub open spec fn starts_with(a: Seq<char>, b: Seq<char>) -> bool {
    a.len() <= b.len() && b.subrange(0, a.len() as int) == a
}

/// Starting is transitive.
pub proof fn lemma_starts_with_chain(a: Seq<char>, b: Seq<char>, c: Seq<char>)
    requires
        starts_with(a, b),
        starts_with(b, c),
    ensures
        starts_with(a, c),
{
    assert(c.subrange(0, a.len() as int) =~= c.subrange(0, b.len() as int).subrange(
        0,
        a.len() as int,
    ));
}

/// Two prefixes of one path are nested.
pub proof fn lemma_prefix_nested(a: Seq<char>, b: Seq<char>, c: Seq<char>)
    requires
        starts_with(a, c),
        starts_with(b, c),
        a.len() <= b.len(),
    ensures
        starts_with(a, b),
{
    assert(c.subrange(0, b.len() as int).subrange(0, a.len() as int) =~= c.subrange(
        0,
        a.len() as int,
    ));
}

/// A path lies directly inside at most one directory: two directories it is
/// a child of are the same. Were one strictly shorter, the other's trailing
/// separator would sit inside the shorter one's leaf name.
pub proof fn lemma_unique_parent(d1: Seq<char>, d2: Seq<char>, c: Seq<char>)
    requires
        is_child_of(d1, c),
        is_child_of(d2, c),
    ensures
        d1 == d2,
{
    assert(starts_with(d1, c) && starts_with(d2, c));
    if d1.len() < d2.len() {
        let n1 = c.subrange(d1.len() as int, c.len() as int);
        assert(c[d2.len() - 1] == d2[d2.len() - 1]) by {
            assert(c.subrange(0, d2.len() as int)[d2.len() - 1] == c[d2.len() - 1]);
        }
        assert(n1[d2.len() - 1 - d1.len()] == c[d2.len() - 1]);
        assert(!is_valid_name(n1));
    } else if d2.len() < d1.len() {
        let n2 = c.subrange(d2.len() as int, c.len() as int);
        assert(c[d1.len() - 1] == d1[d1.len() - 1]) by {
            assert(c.subrange(0, d1.len() as int)[d1.len() - 1] == c[d1.len() - 1]);
        }
        assert(n2[d1.len() - 1 - d2.len()] == c[d1.len() - 1]);
        assert(!is_valid_name(n2));
    } else {
        lemma_prefix_nested(d1, d2, c);
        assert(d1 =~= d2);
    }
}

/// Two entries directly inside the same directory never nest: neither is an
/// ancestor of the other.
pub proof fn lemma_sibling_no_ancestor(d: Seq<char>, a: Seq<char>, b: Seq<char>)
    requires
        is_child_of(d, a),
        is_child_of(d, b),
    ensures
        !is_ancestor_of(a, b),
{
    if is_ancestor_of(a, b) {
        let na = a.subrange(d.len() as int, a.len() as int);
        let nb = b.subrange(d.len() as int, b.len() as int);
        assert(a[a.len() - 1] == '/');
        assert(na[na.len() - 1] == '/');
        assert(starts_with(a, b));
        assert(forall|i: int| 0 <= i < a.len() ==> a[i] == b[i]) by {
            assert(forall|i: int|
                0 <= i < a.len() ==> b.subrange(0, a.len() as int)[i] == b[i]);
        }
        assert(nb[na.len() - 1] == b[a.len() - 1]);
        assert(nb[na.len() - 1] == '/');
        assert(na.len() - 1 < nb.len() - 1);
        assert(!is_valid_name(nb));
    }
}

/// Exec form of [`last_slash_index`].
fn find_last_slash(s: &str) -> (r: Option<usize>)
    ensures
        match r {
            Some(i) => i < s@.len() && last_slash_index(s@) == i as int,
            None => last_slash_index(s@) == -1,
        },
{
    let n = s.unicode_len();
    let mut i: usize = 0;
    let mut found: Option<usize> = None;
    proof {
        assert(s@.take(0int) =~= Seq::<char>::empty());
    }
    while i < n
        invariant
            n == s@.len(),
            i <= n,
            match found {
                Some(j) => j < i && last_slash_index(s@.take(i as int)) == j as int,
                None => last_slash_index(s@.take(i as int)) == -1,
            },
        decreases n - i,
    {
        let c = s.get_char(i);
        proof {
            assert(s@.take(i + 1int).drop_last() =~= s@.take(i as int));
            assert(s@.take(i + 1int)[i as int] == s@[i as int]);
        }
        if c == '/' {
            found = Some(i);
        }
        i = i + 1;
    }
    proof {
        assert(s@.take(n as int) =~= s@);
    }
    found
}

/// The parent namespace of `path`: everything before the final segment
/// (ignoring a directory's trailing separator), or the root namespace `/`
/// when there is no other separator.
pub fn get_parent(path: &str) -> (r: String)
    ensures
        r@ == parent_of(path@),
{
    let n = path.unicode_len();
    let e: &str = if n > 1 && path.get_char(n - 1) == '/' {
        path.substring_char(0, n - 1)
    } else {
        path
    };
    proof {
        reveal_strlit("/");
        assert(effective_path(path@) =~= e@);
    }
    match find_last_slash(e) {
        Some(i) if i > 0 => {
            let r = String::from_str(e.substring_char(0, i));
            proof {
                assert(r@ =~= parent_of(path@));
            }
            r
        },
        _ => {
            let r = String::from_str("/");
            proof {
                assert(r@ =~= seq!['/']);
            }
            r
        },
    }
}

/// The leaf name of `path`: the final segment, keeping a directory's
/// trailing separator.
pub fn get_basename(path: &str) -> (r: String)
    ensures
        r@ == basename_of(path@),
{
    let n = path.unicode_len();
    let e: &str = if n > 1 && path.get_char(n - 1) == '/' {
        path.substring_char(0, n - 1)
    } else {
        path
    };
    proof {
        assert(effective_path(path@) =~= e@);
    }
    let start: usize = match find_last_slash(e) {
        Some(i) => i + 1,
        None => 0,
    };
    String::from_str(path.substring_char(start, n))
}

/// Join a namespace and a leaf name back into a full path.
pub fn join_path(ns: &str, name: &str) -> (r: String)
    ensures
        r@ == join_of(ns@, name@),
{
    proof {
        reveal_strlit("/");
    }
    let is_root = ns.unicode_len() == 1 && ns.get_char(0) == '/';
    proof {
        assert(is_root <==> ns@ =~= seq!['/']);
    }
    if is_root {
        let r = String::from_str("/").concat(name);
        proof {
            assert(r@ =~= seq!['/'] + name@);
        }
        r
    } else {
        let r = String::from_str(ns).concat("/").concat(name);
        proof {
            assert(r@ =~= ns@ + seq!['/'] + name@);
        }
        r
    }
}

/// Normalize a root to its absolute, slash-terminated form.
pub fn normalize_root(s: &str) -> (r: String)
    ensures
        r@ == normalized_root_of(s@),
        is_normalized_root(r@),
{
    proof {
        reveal_strlit("/");
    }
    let n = s.unicode_len();
    if n == 0 {
        let r = String::from_str("/");
        proof {
            assert(r@ =~= seq!['/']);
            assert(normalized_root_of(s@) =~= seq!['/']);
        }
        return r;
    }
    let t: String = if s.get_char(0) == '/' {
        String::from_str(s)
    } else {
        String::from_str("/").concat(s)
    };
    proof {
        assert(t@ =~= if s@[0] == '/' {
            s@
        } else {
            seq!['/'] + s@
        });
    }
    let tn = t.as_str().unicode_len();
    let r: String = if t.as_str().get_char(tn - 1) == '/' {
        t
    } else {
        t.concat("/")
    };
    proof {
        let tv = if s@[0] == '/' {
            s@
        } else {
            seq!['/'] + s@
        };
        assert(r@ =~= if tv[tv.len() - 1] == '/' {
            tv
        } else {
            tv + seq!['/']
        });
        assert(r@ == normalized_root_of(s@));
        assert(r@[r@.len() - 1] == '/');
    }
    r
}

/// Build the absolute form of a caller path under a normalized root.
pub fn build_abs_path(root: &str, path: &str) -> (r: String)
    requires
        is_normalized_root(root@),
    ensures
        r@ == abs_path_of(root@, path@),
        is_abs_path(r@),
{
    let n = path.unicode_len();
    let mut i: usize = 0;
    proof {
        assert(path@.skip(0int) =~= path@);
    }
    while i < n && path.get_char(i) == '/'
        invariant
            n == path@.len(),
            i <= n,
            strip_leading_slashes(path@) == strip_leading_slashes(path@.skip(i as int)),
            forall|j: int| 0 <= j < i ==> path@[j] == '/',
        decreases n - i,
    {
        proof {
            assert(path@.skip(i as int)[0] == path@[i as int]);
            assert(path@.skip(i as int).skip(1) =~= path@.skip(i + 1int));
        }
        i = i + 1;
    }
    proof {
        if i < n {
            assert(path@.skip(i as int)[0] == path@[i as int]);
        }
        assert(strip_leading_slashes(path@.skip(i as int)) == path@.skip(i as int));
    }
    let rest = path.substring_char(i, n);
    let r = String::from_str(root).concat(rest);
    proof {
        assert(r@ =~= root@ + path@.skip(i as int));
        assert(r@[0] == root@[0]);
    }
    r
}

/// Give a path its directory form by appending the separator when missing.
pub fn to_dir_path(path: &str) -> (r: String)
    ensures
        r@ == if is_dir_path(path@) {
            path@
        } else {
            path@ + seq!['/']
        },
        is_dir_path(r@),
{
    proof {
        reveal_strlit("/");
    }
    let n = path.unicode_len();
    if n > 0 && path.get_char(n - 1) == '/' {
        String::from_str(path)
    } else {
        let r = String::from_str(path).concat("/");
        proof {
            assert(r@ =~= path@ + seq!['/']);
            assert(r@[r@.len() - 1] == '/');
        }
        r
    }
}

/// Give a path its leaf form by removing a single trailing separator,
/// unless it is the root.
pub fn to_effective_path(path: &str) -> (r: String)
    ensures
        r@ == effective_path(path@),
{
    let n = path.unicode_len();
    if n > 1 && path.get_char(n - 1) == '/' {
        String::from_str(path.substring_char(0, n - 1))
    } else {
        String::from_str(path)
    }
}

/// Give a path its parent form by removing every trailing separator, down
/// to the root.
pub fn to_parent_form(path: &str) -> (r: String)
    ensures
        r@ == parent_form_of(path@),
{
    let mut n = path.unicode_len();
    proof {
        assert(path@.take(n as int) =~= path@);
    }
    while n > 1 && path.get_char(n - 1) == '/'
        invariant
            n <= path@.len(),
            parent_form_of(path@) == parent_form_of(path@.take(n as int)),
        decreases n,
    {
        proof {
            assert(path@.take(n as int).drop_last() =~= path@.take(n - 1int));
            assert(path@.take(n as int)[n - 1int] == path@[n - 1int]);
        }
        n = n - 1;
    }
    proof {
        if n > 0 {
            assert(path@.take(n as int)[n - 1int] == path@[n - 1int]);
        }
        assert(parent_form_of(path@.take(n as int)) == path@.take(n as int));
    }
    String::from_str(path.substring_char(0, n))
}

/// Whether the path is absolute.
pub fn check_abs_path(path: &str) -> (r: bool)
    ensures
        r == is_abs_path(path@),
{
    path.unicode_len() > 0 && path.get_char(0) == '/'
}

/// Whether the path names a directory.
pub fn check_dir_path(path: &str) -> (r: bool)
    ensures
        r == is_dir_path(path@),
{
    let n = path.unicode_len();
    n > 0 && path.get_char(n - 1) == '/'
}

/// Whether `p` lies directly inside the directory path `dir`.
pub fn check_child_of(dir: &str, p: &str) -> (r: bool)
    ensures
        r == is_child_of(dir@, p@),
{
    if !check_dir_path(dir) {
        return false;
    }
    let dn = dir.unicode_len();
    let pn = p.unicode_len();
    if pn <= dn {
        return false;
    }
    let head = p.substring_char(0, dn);
    let prefix_eq = String::from_str(head) == String::from_str(dir);
    if !prefix_eq {
        proof {
            assert(p@.subrange(0, dir@.len() as int) != dir@);
        }
        return false;
    }
    let rest = p.substring_char(dn, pn);
    let r = check_valid_name(rest);
    proof {
        assert(rest@ == p@.subrange(dir@.len() as int, p@.len() as int));
    }
    r
}

/// Whether the string is a valid leaf name.
pub fn check_valid_name(name: &str) -> (r: bool)
    ensures
        r == is_valid_name(name@),
{
    let n = name.unicode_len();
    if n == 0 {
        return false;
    }
    let mut i: usize = 0;
    while i < n - 1
        invariant
            n == name@.len(),
            n > 0,
            i <= n - 1,
            forall|j: int| 0 <= j < i ==> name@[j] != '/',
        decreases n - i,
    {
        if name.get_char(i) == '/' {
            return false;
        }
        i = i + 1;
    }
    true
}

/// The directory-path form of a namespace: the namespace itself when it
/// already ends with the separator, else with one appended.
pub open spec fn dir_form_of(ns: Seq<char>) -> Seq<char> {
    if is_dir_path(ns) {
        ns
    } else {
        ns + seq!['/']
    }
}

/// A joined path lies directly inside its namespace's directory form.
pub proof fn lemma_join_is_child(ns: Seq<char>, name: Seq<char>)
    requires
        is_valid_name(name),
        is_parent_form(ns),
    ensures
        is_child_of(dir_form_of(ns), join_of(ns, name)),
        is_abs_path(join_of(ns, name)),
        is_dir_path(join_of(ns, name)) <==> name[name.len() - 1] == '/',
{
    let p = join_of(ns, name);
    let d = dir_form_of(ns);
    if ns == seq!['/'] {
        assert(d =~= ns);
        assert(p =~= d + name);
    } else {
        assert(d =~= ns + seq!['/']);
        assert(p =~= d + name);
    }
    assert(p.subrange(0, d.len() as int) =~= d);
    assert(p.subrange(d.len() as int, p.len() as int) =~= name);
    assert(p[0] == d[0]);
    assert(p[p.len() - 1] == name[name.len() - 1]);
}

/// Splitting never loses information: for every namespace and valid leaf
/// name, the joined path splits back into exactly that namespace and name.
/// (The namespace must itself be in parent form: `/`, or an absolute path
/// without a trailing separator.)
pub proof fn lemma_split_roundtrip(ns: Seq<char>, name: Seq<char>)
    requires
        is_valid_name(name),
        is_parent_form(ns),
    ensures
        parent_of(join_of(ns, name)) == ns,
        basename_of(join_of(ns, name)) == name,
{
    let p = join_of(ns, name);
    let e = effective_path(p);
    let pre: Seq<char> = if ns == seq!['/'] {
        seq!['/']
    } else {
        ns + seq!['/']
    };
    assert(p =~= pre + name);
    if name[name.len() - 1] == '/' && name.len() > 1 {
        assert(e =~= pre + name.drop_last());
    } else if name[name.len() - 1] == '/' && name.len() == 1 {
        // name is exactly "/": not a valid name unless length 1 with sep at
        // the end, which the valid-name predicate admits; the effective path
        // drops it.
        assert(p.len() > 1);
        assert(e =~= pre + name.drop_last());
    } else {
        assert(e =~= pre + name);
    }
    let stem = e.subrange(pre.len() as int, e.len() as int);
    assert(forall|i: int| 0 <= i < stem.len() ==> stem[i] == name[i] && name[i] != '/');
    assert(e =~= pre + stem);
    lemma_last_slash_append(pre, stem);
    assert(last_slash_index(pre) == pre.len() - 1) by {
        assert(pre[pre.len() - 1] == '/');
    }
    assert(last_slash_index(e) == pre.len() - 1);
    if ns == seq!['/'] {
        assert(parent_of(p) == seq!['/']);
    } else {
        assert(parent_of(p) =~= e.subrange(0, ns.len() as int));
        assert(parent_of(p) =~= ns);
    }
    assert(basename_of(p) =~= p.subrange(pre.len() as int, p.len() as int));
    assert(basename_of(p) =~= name);
}

/// Appending separator-free characters does not move the last separator.
proof fn lemma_last_slash_append(base: Seq<char>, tail: Seq<char>)
    requires
        forall|i: int| 0 <= i < tail.len() ==> tail[i] != '/',
    ensures
        last_slash_index(base + tail) == last_slash_index(base),
    decreases tail.len(),
{
    if tail.len() == 0 {
        assert(base + tail =~= base);
    } else {
        let whole = base + tail;
        assert(whole[whole.len() - 1] == tail[tail.len() - 1]);
        assert(whole.drop_last() =~= base + tail.drop_last());
        lemma_last_slash_append(base, tail.drop_last());
    }
}

} // verus!
