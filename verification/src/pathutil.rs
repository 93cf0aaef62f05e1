//! Path helpers over plain strings: tilde expansion, parent directories, and
//! relative/absolute conversion. Paths here are strings with `/` as the
//! separator; probing the file system (does a path exist, is it a directory,
//! what is the current directory) is the caller's job, and the results come
//! in as parameters.

use vstd::prelude::*;

use crate::strutil::{concat_str, find_last_char, head_to, str_eq, str_starts_with, tail_from};

verus! {

/// Why a path operation failed.
#[derive(Clone, Copy, Debug, PartialEq, Eq, Structural)]
pub enum PathError {
    /// The path has no parent directory.
    NoParent,
    /// No home directory is known, but the operation needed one.
    NoHomeDir,
}

/// Relies on `dirs::home_dir`: the user's home directory, if the system
/// knows one whose path is valid Unicode. The result depends on the
/// environment, so nothing is promised of it.
#[verifier::external_body]
fn os_home_dir() -> (r: Option<String>) {
    dirs::home_dir().and_then(|p| p.into_os_string().into_string().ok())
}

/// The path names the home directory by tilde: `~` alone or `~/...`.
pub open spec fn tilde_prefixed(p: Seq<char>) -> bool {
    p == "~"@ || "~/"@.is_prefix_of(p)
}

/// Tilde expansion: a path that does not name the home by tilde is kept; one
/// that does needs a home directory (else nothing comes back) and is resolved
/// against it. A home of `/` gets no extra separator.
pub open spec fn expanded_tilde(p: Seq<char>, home: Option<Seq<char>>) -> Option<Seq<char>> {
    if !tilde_prefixed(p) {
        Some(p)
    } else {
        match home {
            None => None,
            Some(h) => if p == "~"@ || p == "~/"@ {
                Some(h)
            } else if h == "/"@ {
                Some(p.skip(2))
            } else {
                Some(h + "/"@ + p.skip(2))
            },
        }
    }
}

/// The view of an optional owned string.
pub open spec fn opt_view(s: Option<String>) -> Option<Seq<char>> {
    match s {
        Some(x) => Some(x@),
        None => None,
    }
}

/// Expands a leading tilde against `home`; see [`expanded_tilde`].
pub fn expand_tilde(path: &str, home: &Option<String>) -> (r: Option<String>)
    ensures
        opt_view(r) == expanded_tilde(path@, opt_view(*home)),
{
    proof {
        reveal_strlit("~");
        reveal_strlit("~/");
        reveal_strlit("/");
    }
    if !(str_eq(path, "~") || str_starts_with(path, "~/")) {
        return Some(path.to_owned());
    }
    match home {
        None => None,
        Some(h) => {
            if str_eq(path, "~") || str_eq(path, "~/") {
                Some(h.clone())
            } else if str_eq(h.as_str(), "/") {
                Some(tail_from(path, 2))
            } else {
                let mut out = h.clone();
                out.append("/");
                let rest = tail_from(path, 2);
                out.append(rest.as_str());
                proof {
                    assert(out@ == h@ + "/"@ + path@.skip(2));
                }
                Some(out)
            }
        },
    }
}

/// `p` without its trailing separators.
pub open spec fn stripped_trailing(p: Seq<char>) -> Seq<char>
    decreases p.len(),
{
    if p.len() > 0 && p.last() == '/' {
        stripped_trailing(p.drop_last())
    } else {
        p
    }
}

/// The index of the last separator of `t`, if it has one.
pub open spec fn spec_last_slash(t: Seq<char>) -> Option<int>
    decreases t.len(),
{
    if t.len() == 0 {
        None
    } else if t.last() == '/' {
        Some(t.len() - 1)
    } else {
        spec_last_slash(t.drop_last())
    }
}

/// The parent directory of `p`: the path up to its last component, the root
/// for a top-level absolute path, the empty path for a bare file name, and
/// nothing for an empty path or the root itself.
pub open spec fn parent_of(p: Seq<char>) -> Option<Seq<char>> {
    let t = stripped_trailing(p);
    if t.len() == 0 {
        None
    } else {
        match spec_last_slash(t) {
            None => Some(Seq::<char>::empty()),
            Some(i) => {
                let q = stripped_trailing(t.take(i));
                if q.len() == 0 && t[0] == '/' {
                    Some("/"@)
                } else {
                    Some(q)
                }
            },
        }
    }
}

/// A sequence whose suffix from `m` on is all separators, with none right
/// before `m`, strips to its first `m` characters.
proof fn lemma_stripped_trailing(p: Seq<char>, m: int)
    requires
        0 <= m <= p.len(),
        forall|j: int| m <= j < p.len() ==> p[j] == '/',
        m > 0 ==> p[m - 1] != '/',
    ensures
        stripped_trailing(p) == p.take(m),
    decreases p.len(),
{
    if m < p.len() {
        assert(p.last() == '/');
        assert(p.drop_last().take(m) =~= p.take(m));
        lemma_stripped_trailing(p.drop_last(), m);
    } else {
        assert(p.take(m) =~= p);
        if p.len() > 0 {
            assert(p.last() != '/');
        }
    }
}

/// `spec_last_slash` is characterized by "a separator with none after it".
proof fn lemma_last_slash_some(t: Seq<char>, i: int)
    requires
        0 <= i < t.len(),
        t[i] == '/',
        forall|j: int| i < j < t.len() ==> t[j] != '/',
    ensures
        spec_last_slash(t) == Some(i),
    decreases t.len(),
{
    if i == t.len() - 1 {
    } else {
        assert(t.last() != '/');
        assert(t.drop_last()[i] == '/');
        lemma_last_slash_some(t.drop_last(), i);
    }
}

proof fn lemma_last_slash_none(t: Seq<char>)
    requires
        forall|j: int| 0 <= j < t.len() ==> t[j] != '/',
    ensures
        spec_last_slash(t) is None,
    decreases t.len(),
{
    if t.len() > 0 {
        lemma_last_slash_none(t.drop_last());
    }
}

/// Strips trailing separators executably, returning the kept length.
fn strip_trailing_len(p: &str) -> (m: usize)
    ensures
        m <= p@.len(),
        stripped_trailing(p@) == p@.take(m as int),
{
    let n = p.unicode_len();
    let mut m = n;
    while m > 0
        invariant
            n == p@.len(),
            m <= n,
            forall|j: int| m <= j < n ==> p@[j] == '/',
        decreases m,
    {
        if p.get_char(m - 1) != '/' {
            proof {
                lemma_stripped_trailing(p@, m as int);
            }
            return m;
        }
        m = m - 1;
    }
    proof {
        lemma_stripped_trailing(p@, 0);
    }
    0
}

/// The parent directory of `p`; see [`parent_of`].
pub fn parent_path(p: &str) -> (r: Option<String>)
    ensures
        opt_view(r) == parent_of(p@),
{
    let m = strip_trailing_len(p);
    if m == 0 {
        return None;
    }
    let t = head_to(p, m);
    match find_last_char(t.as_str(), '/') {
        None => {
            proof {
                lemma_last_slash_none(t@);
            }
            Some(String::new())
        },
        Some(i) => {
            proof {
                lemma_last_slash_some(t@, i as int);
            }
            let m2 = strip_trailing_len(head_to(t.as_str(), i).as_str());
            proof {
                assert(t@.take(i as int).take(m2 as int) =~= t@.take(m2 as int));
            }
            if m2 == 0 && t.get_char(0) == '/' {
                proof {
                    reveal_strlit("/");
                }
                Some("/".to_owned())
            } else {
                proof {
                    assert(stripped_trailing(t@.take(i as int)) =~= t@.take(m2 as int));
                }
                Some(head_to(t.as_str(), m2))
            }
        },
    }
}

/// What `dirname` computes: the tilde-expanded path itself when it is a
/// directory, else its parent.
pub open spec fn dirname_of(p: Seq<char>, home: Option<Seq<char>>, p_is_dir: bool) -> Result<
    Seq<char>,
    PathError,
> {
    let e = match expanded_tilde(p, home) {
        Some(x) => x,
        None => p,
    };
    if p_is_dir {
        Ok(e)
    } else {
        match parent_of(e) {
            Some(d) => Ok(d),
            None => Err(PathError::NoParent),
        }
    }
}

/// The directory of `path`: the tilde-expanded path itself when the caller
/// found it to be a directory (`p_is_dir` speaks of the expanded path), else
/// its parent directory.
pub fn dirname(path: &str, p_is_dir: bool, home: &Option<String>) -> (r: Result<String, PathError>)
    ensures
        match r {
            Ok(d) => dirname_of(path@, opt_view(*home), p_is_dir) == Ok::<Seq<char>, PathError>(
                d@,
            ),
            Err(e) => dirname_of(path@, opt_view(*home), p_is_dir) == Err::<
                Seq<char>,
                PathError,
            >(e),
        },
{
    let expanded = match expand_tilde(path, home) {
        Some(x) => x,
        None => path.to_owned(),
    };
    if p_is_dir {
        Ok(expanded)
    } else {
        match parent_path(expanded.as_str()) {
            Some(d) => Ok(d),
            None => Err(PathError::NoParent),
        }
    }
}

/// Joining `p` onto `base` the way paths join: an absolute `p` replaces the
/// base, an empty `p` keeps it, and otherwise a single separator stands
/// between them.
pub open spec fn joined(base: Seq<char>, p: Seq<char>) -> Seq<char> {
    if p.len() == 0 {
        base
    } else if p[0] == '/' {
        p
    } else if base.len() == 0 {
        p
    } else if base.last() == '/' {
        base + p
    } else {
        base + "/"@ + p
    }
}

/// Joins `p` onto `base`; see [`joined`].
pub fn join_path(base: &str, p: &str) -> (r: String)
    ensures
        r@ == joined(base@, p@),
{
    proof {
        reveal_strlit("/");
    }
    let pn = p.unicode_len();
    if pn == 0 {
        return base.to_owned();
    }
    if p.get_char(0) == '/' {
        return p.to_owned();
    }
    let bn = base.unicode_len();
    if bn == 0 {
        return p.to_owned();
    }
    if base.get_char(bn - 1) == '/' {
        concat_str(base, p)
    } else {
        let mut out = base.to_owned();
        out.append("/");
        out.append(p);
        proof {
            assert(out@ == base@ + "/"@ + p@);
        }
        out
    }
}

/// `p` starts with the directory `base`: it is `base` itself or lies under
/// it, component-wise.
pub open spec fn component_prefixed(p: Seq<char>, base: Seq<char>) -> bool {
    p == base || (base + "/"@).is_prefix_of(p)
}

/// The part of `p` below `base` (meaningful when `component_prefixed`).
pub open spec fn rel_suffix(p: Seq<char>, base: Seq<char>) -> Seq<char> {
    if p == base {
        Seq::<char>::empty()
    } else {
        p.skip(base.len() as int + 1)
    }
}

/// Checks `component_prefixed` executably.
fn is_component_prefixed(p: &str, base: &str) -> (r: bool)
    ensures
        r == component_prefixed(p@, base@),
{
    proof {
        reveal_strlit("/");
    }
    if str_eq(p, base) {
        return true;
    }
    let with_sep = concat_str(base, "/");
    str_starts_with(p, with_sep.as_str())
}

/// What `to_absolute_path` computes: the tilde-expanded path, with a leading
/// `./` dropped, joined onto the base (or the current directory).
pub open spec fn absolute_of(
    p: Seq<char>,
    base: Option<Seq<char>>,
    cwd: Seq<char>,
    home: Option<Seq<char>>,
) -> Seq<char> {
    let e = match expanded_tilde(p, home) {
        Some(x) => x,
        None => p,
    };
    let e2 = if "./"@.is_prefix_of(e) {
        e.skip(2)
    } else {
        e
    };
    joined(
        match base {
            Some(b) => b,
            None => cwd,
        },
        e2,
    )
}

/// Makes `path` absolute: expands a tilde, drops a leading `./`, and joins
/// the rest onto `base_path` (or onto the caller's current directory `cwd`).
pub fn to_absolute_path(path: &str, base_path: &Option<String>, cwd: &str, home: &Option<String>)
    -> (r: String)
    ensures
        r@ == absolute_of(path@, opt_view(*base_path), cwd@, opt_view(*home)),
{
    proof {
        reveal_strlit("./");
    }
    let expanded = match expand_tilde(path, home) {
        Some(x) => x,
        None => path.to_owned(),
    };
    let stripped = if str_starts_with(expanded.as_str(), "./") {
        tail_from(expanded.as_str(), 2)
    } else {
        expanded
    };
    let base: &str = match base_path {
        Some(ref b) => b.as_str(),
        None => cwd,
    };
    join_path(base, stripped.as_str())
}

/// What `to_relative_path` computes: `./`-relative under the base (or
/// current) directory, `~/`-relative under the home directory, else the path
/// unchanged; without a known home the home step fails.
pub open spec fn relative_of(
    p: Seq<char>,
    base: Option<Seq<char>>,
    cwd: Seq<char>,
    home: Option<Seq<char>>,
) -> Result<Seq<char>, PathError> {
    let cur = match base {
        Some(b) => b,
        None => cwd,
    };
    if component_prefixed(p, cur) {
        Ok("./"@ + rel_suffix(p, cur))
    } else {
        match home {
            None => Err(PathError::NoHomeDir),
            Some(h) => if component_prefixed(p, h) {
                Ok("~/"@ + rel_suffix(p, h))
            } else {
                Ok(p)
            },
        }
    }
}

/// Makes `path` relative: `./`-relative when it lies under `base_path` (or
/// under the caller's current directory `cwd`), `~/`-relative when it lies
/// under the home directory, else unchanged.
pub fn to_relative_path(path: &str, base_path: &Option<String>, cwd: &str, home: &Option<String>)
    -> (r: Result<String, PathError>)
    ensures
        match r {
            Ok(s) => relative_of(path@, opt_view(*base_path), cwd@, opt_view(*home)) == Ok::<
                Seq<char>,
                PathError,
            >(s@),
            Err(e) => relative_of(path@, opt_view(*base_path), cwd@, opt_view(*home)) == Err::<
                Seq<char>,
                PathError,
            >(e),
        },
{
    proof {
        reveal_strlit("./");
        reveal_strlit("~/");
        reveal_strlit("/");
    }
    let cur: &str = match base_path {
        Some(ref b) => b.as_str(),
        None => cwd,
    };
    if is_component_prefixed(path, cur) {
        let rel = if str_eq(path, cur) {
            String::new()
        } else {
            let pn = path.unicode_len();
            proof {
                assert((cur@ + "/"@).is_prefix_of(path@));
                assert(path@.len() >= cur@.len() + 1);
            }
            let cn = cur.unicode_len();
            tail_from(path, cn + 1)
        };
        let out = concat_str("./", rel.as_str());
        return Ok(out);
    }
    match home {
        None => Err(PathError::NoHomeDir),
        Some(ref h) => {
            if is_component_prefixed(path, h.as_str()) {
                let rel = if str_eq(path, h.as_str()) {
                    String::new()
                } else {
                    let pn = path.unicode_len();
                    proof {
                        assert((h@ + "/"@).is_prefix_of(path@));
                        assert(path@.len() >= h@.len() + 1);
                    }
                    let hn = h.unicode_len();
                    tail_from(path, hn + 1)
                };
                Ok(concat_str("~/", rel.as_str()))
            } else {
                Ok(path.to_owned())
            }
        },
    }
}

/// The user's home directory, if the system knows one.
pub fn get_home() -> (r: Option<String>) {
    os_home_dir()
}

/// The user's home directory as a string, if the system knows one.
pub fn get_home_as_string() -> (r: Option<String>) {
    os_home_dir()
}

/// The workspace directory used for scratch editing under `home`.
pub fn test_dir_under(home: &str) -> (r: String)
    ensures
        r@ == home@ + "/tinywrite"@,
{
    concat_str(home, "/tinywrite")
}

/// The scratch workspace directory under the home directory, if a home is
/// known.
pub fn get_test_dir() -> (r: Option<String>)
    ensures
        match r {
            Some(s) => exists|h: Seq<char>| s@ == h + "/tinywrite"@,
            None => true,
        },
{
    match get_home() {
        Some(h) => Some(test_dir_under(h.as_str())),
        None => None,
    }
}

/// The scratch workspace directory as a string, if a home is known.
pub fn get_test_dir_as_string() -> (r: Option<String>)
    ensures
        match r {
            Some(s) => exists|h: Seq<char>| s@ == h + "/tinywrite"@,
            None => true,
        },
{
    get_test_dir()
}

} // verus!
