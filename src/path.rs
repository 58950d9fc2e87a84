//! Paths as text: the directory that holds the manifest, paths made relative
//! to it, and paths joined.
use std::path::Path;
use vstd::prelude::*;
use vstd::string::*;

verus! {

/// What `Path::parent` gives for the path `p`.
pub uninterp spec fn parent_of(p: Seq<char>) -> Option<Seq<char>>;

/// What `Path::strip_prefix` gives for the path `p` and the base `base`.
pub uninterp spec fn stripped_of(p: Seq<char>, base: Seq<char>) -> Option<Seq<char>>;

/// Relies on std::path::Path::parent: the path without its final component,
/// none for the empty path (or one that ends in a root).
#[verifier::external_body]
pub(crate) fn path_parent(p: &str) -> (r: Option<&str>)
    ensures
        r matches Some(d) ==> parent_of(p@) == Some(d@),
        r is None ==> parent_of(p@) is None,
        p@.len() == 0 ==> r is None,
{
    match Path::new(p).parent() {
        Some(d) => d.to_str(),
        None => None,
    }
}

/// Relies on std::path::Path::strip_prefix: compares the paths component by
/// component and gives what follows `base` in `p`; none where `base` does not
/// lead `p`.
#[verifier::external_body]
pub(crate) fn path_strip_prefix<'a>(p: &'a str, base: &str) -> (r: Option<&'a str>)
    ensures
        r matches Some(s) ==> stripped_of(p@, base@) == Some(s@),
        r is None ==> stripped_of(p@, base@) is None,
{
    match Path::new(p).strip_prefix(base) {
        Ok(s) => s.to_str(),
        Err(_) => None,
    }
}

/// `p` relative to the directory that holds the manifest `m`: `p` itself
/// where `m` has no directory or `p` does not lie under it.
pub open spec fn strip_manifest_dir(p: Seq<char>, m: Seq<char>) -> Seq<char> {
    match parent_of(m) {
        Some(root) => match stripped_of(p, root) {
            Some(rest) => rest,
            None => p,
        },
        None => p,
    }
}

/// `p` relative to the directory that holds the manifest `m`, or `p` itself
/// where `m` has no directory or `p` does not lie under it.
pub fn strip_manifest<'a>(p: &'a str, m: &str) -> (r: &'a str)
    ensures
        r@ == strip_manifest_dir(p@, m@),
{
    match path_parent(m) {
        Some(root) => match path_strip_prefix(p, root) {
            Some(rest) => rest,
            None => p,
        },
        None => p,
    }
}

/// `base` with `p` appended as a further component; an absolute `p` replaces `base`.
pub open spec fn push_path(base: Seq<char>, p: Seq<char>) -> Seq<char> {
    if p.len() > 0 && p[0] == '/' {
        p
    } else if base.len() == 0 || base.last() == '/' {
        base + p
    } else {
        base + seq!['/'] + p
    }
}

/// `base` with `p` appended as a further component; an absolute `p` replaces `base`.
pub fn join_path(base: &str, p: &str) -> (r: String)
    ensures
        r@ == push_path(base@, p@),
{
    let n = base.unicode_len();
    let m = p.unicode_len();
    if m > 0 && p.get_char(0) == '/' {
        return p.to_owned();
    }
    let mut out = base.to_owned();
    if n > 0 && base.get_char(n - 1) != '/' {
        proof {
            reveal_strlit("/");
        }
        out.append("/");
    }
    out.append(p);
    out
}

} // verus!
