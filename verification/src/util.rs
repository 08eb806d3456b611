//! Helpers for paths kept as text.
//!
//! A path is held as a `String`. Taking a path apart, putting one together
//! and telling whether two paths are equal or which comes first is left to
//! `std::path`; the contracts name what it returns.

use crate::text::{begins_with, chars_of, starts_with, string_of_range};
use vstd::prelude::*;

verus! {

/// The prefix `\\?\` that Windows puts before a canonical path.
pub open spec fn unc_prefix() -> Seq<char> {
    seq!['\\', '\\', '?', '\\']
}

/// `path` without a leading `\\?\`; `path` itself where it has none.
pub open spec fn without_unc_prefix(path: Seq<char>) -> Seq<char> {
    if begins_with(path, unc_prefix()) {
        path.skip(4)
    } else {
        path
    }
}

/// Strip the Windows prefix `\\?\` from a path, returning a new `String`.
pub fn strip_unc_pathbuf(path: &str) -> (r: String)
    ensures
        r@ == without_unc_prefix(path@),
{
    let v = chars_of(path);
    let mut prefix: Vec<char> = Vec::new();
    prefix.push('\\');
    prefix.push('\\');
    prefix.push('?');
    prefix.push('\\');
    assert(prefix@ == unc_prefix());
    if starts_with(&v, &prefix) {
        let r = string_of_range(&v, 4, v.len());
        assert(v@.subrange(4, v.len() as int) == v@.skip(4));
        r
    } else {
        let r = string_of_range(&v, 0, v.len());
        assert(v@.subrange(0, v.len() as int) == v@);
        r
    }
}

/// Strip the Windows prefix `\\?\` from a path string.
pub fn strip_unc_prefix(path: &str) -> (r: &str)
    ensures
        r@ == without_unc_prefix(path@),
{
    let n = path.unicode_len();
    if n >= 4 && path.get_char(0) == '\\' && path.get_char(1) == '\\' && path.get_char(2) == '?'
        && path.get_char(3) == '\\' {
        assert(path@.take(4) == unc_prefix());
        let r = path.substring_char(4, n);
        assert(path@.subrange(4, n as int) == path@.skip(4));
        r
    } else {
        assert(begins_with(path@, unc_prefix()) ==> path@.take(4)[0] == '\\' && path@.take(4)[1]
            == '\\' && path@.take(4)[2] == '?' && path@.take(4)[3] == '\\');
        path
    }
}

/// What `Path::file_name` of std returns for the path `path`, as text.
pub uninterp spec fn file_name_of(path: Seq<char>) -> Option<Seq<char>>;

/// What `Path::parent` of std returns for the path `path`, as text.
pub uninterp spec fn parent_of(path: Seq<char>) -> Option<Seq<char>>;

/// What `Path::strip_prefix` of std returns for the path `path` and the
/// prefix `base`, as text; `None` where it returns an error.
pub uninterp spec fn relative_to(path: Seq<char>, base: Seq<char>) -> Option<Seq<char>>;

/// What `Path::join` of std returns for the path `base` and the path
/// `rest`, as text.
pub uninterp spec fn joined(base: Seq<char>, rest: Seq<char>) -> Seq<char>;

/// Whether std takes the paths `a` and `b` for equal: what `==` on `Path`
/// returns.
pub uninterp spec fn same_path(a: Seq<char>, b: Seq<char>) -> bool;

/// Whether std puts the path `a` before the path `b`: what `<` on `Path`
/// returns.
pub uninterp spec fn path_before(a: Seq<char>, b: Seq<char>) -> bool;

/// `==` on `Path` of std, which compares two paths component by component.
/// The contract names the result.
#[verifier::external_body]
pub(crate) fn paths_equal(a: &str, b: &str) -> (r: bool)
    ensures
        r == same_path(a@, b@),
{
    std::path::Path::new(a) == std::path::Path::new(b)
}

/// `<` on `Path` of std, which orders two paths component by component. The
/// contract names the result.
#[verifier::external_body]
pub(crate) fn path_lt(a: &str, b: &str) -> (r: bool)
    ensures
        r == path_before(a@, b@),
{
    std::path::Path::new(a) < std::path::Path::new(b)
}

/// `Path::file_name` of std: the last component of the path, if it has one
/// that is a name. std reads a path by the rules of the platform the program
/// is built for, so the contract names the result and says nothing more.
#[verifier::external_body]
pub(crate) fn file_name(path: &str) -> (r: Option<&str>)
    ensures
        r.deep_view() == file_name_of(path@),
{
    std::path::Path::new(path).file_name().and_then(|n| n.to_str())
}

/// `Path::parent` of std: the path without its last component, if there is
/// one. The contract names the result.
#[verifier::external_body]
pub(crate) fn parent(path: &str) -> (r: Option<&str>)
    ensures
        r.deep_view() == parent_of(path@),
{
    std::path::Path::new(path).parent().and_then(|p| p.to_str())
}

/// `Path::strip_prefix` of std: what is left of `path` behind `base`, or
/// nothing where `base` is not a prefix of `path`. The contract names the
/// result.
#[verifier::external_body]
pub(crate) fn strip_prefix<'a>(path: &'a str, base: &str) -> (r: Option<&'a str>)
    ensures
        r.deep_view() == relative_to(path@, base@),
{
    std::path::Path::new(path).strip_prefix(base).ok().and_then(|p| p.to_str())
}

/// `Path::join` of std: `rest` adjoined to `base`. The contract names the
/// result.
#[verifier::external_body]
pub(crate) fn join(base: &str, rest: &str) -> (r: String)
    ensures
        r@ == joined(base@, rest@),
{
    std::path::Path::new(base).join(rest).to_string_lossy().into_owned()
}

} // verus!
