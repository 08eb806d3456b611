//! The repository record: one working copy that was found on disk or that is
//! remembered from the cache.

use crate::text::{
    append_range, begins_with, chars_of, matches_at, string_of_range, trim_range, trimmed,
};
use crate::util::{file_name, file_name_of, parent, parent_of};
use vstd::prelude::*;
use vstd::string::StringExecFns;

verus! {

/// The label shown for a status that no probe has reported yet.
pub open spec fn loading_label() -> Seq<char> {
    "loading..."@
}

/// The short display name for the name of a working copy and the name of
/// its parent directory: `parent/name`, or the name alone where the parent
/// has none, or the whole path where there is no name.
pub open spec fn short_name_of(
    parent_name: Option<Seq<char>>,
    name: Option<Seq<char>>,
    path: Seq<char>,
) -> Seq<char> {
    match (parent_name, name) {
        (Some(p), Some(n)) => p + seq!['/'] + n,
        (None, Some(n)) => n,
        _ => path,
    }
}

/// What a repository record holds.
pub struct RepoView {
    /// The path of the working copy, which identifies the record.
    pub path: Seq<char>,
    pub branch: Seq<char>,
    /// The remote-tracking status, once a probe has reported it.
    pub remote_status: Option<Seq<char>>,
    /// The working-tree status, once a probe has reported it.
    pub status: Option<Seq<char>>,
    /// Whether the working copy is known from the cache only.
    pub missing: bool,
    /// The remote URL remembered for a missing working copy.
    pub remote_url: Option<Seq<char>>,
}

impl RepoView {
    /// The last component of the path.
    pub open spec fn name(self) -> Option<Seq<char>> {
        file_name_of(self.path)
    }

    /// The last component of the path's parent.
    pub open spec fn parent_name(self) -> Option<Seq<char>> {
        match parent_of(self.path) {
            Some(p) => file_name_of(p),
            None => None,
        }
    }

    /// The short display name: `parent/name`, or the name alone where the
    /// parent has none, or the whole path where the path has no name.
    pub open spec fn display_short(self) -> Seq<char> {
        short_name_of(self.parent_name(), self.name(), self.path)
    }

    /// The remote-tracking status as shown.
    pub open spec fn remote_status_label(self) -> Seq<char> {
        match self.remote_status {
            Some(s) => s,
            None => loading_label(),
        }
    }

    /// The working-tree status as shown.
    pub open spec fn status_label(self) -> Seq<char> {
        match self.status {
            Some(s) => s,
            None => loading_label(),
        }
    }

    /// The record of a working copy that is present on disk and whose
    /// statuses are not loaded yet.
    pub open spec fn present(path: Seq<char>, branch: Seq<char>) -> RepoView {
        RepoView {
            path,
            branch,
            remote_status: None,
            status: None,
            missing: false,
            remote_url: None,
        }
    }

    /// The record of a working copy that is known from the cache only.
    pub open spec fn absent(path: Seq<char>, remote_url: Option<Seq<char>>) -> RepoView {
        RepoView {
            path,
            branch: Seq::empty(),
            remote_status: None,
            status: None,
            missing: true,
            remote_url,
        }
    }
}

/// The branch label that the content of `.git/HEAD` stands for: the branch
/// name behind `ref: refs/heads/`, else `detached@` and the first seven
/// characters, else `unknown`. `None` stands for a file that cannot be read.
pub open spec fn branch_of_head(head: Option<Seq<char>>) -> Seq<char> {
    match head {
        None => "unknown"@,
        Some(content) => {
            let t = trimmed(content);
            let p = "ref: refs/heads/"@;
            if begins_with(t, p) {
                t.skip(p.len() as int)
            } else if t.len() >= 7 {
                "detached@"@ + t.take(7)
            } else {
                "unknown"@
            }
        },
    }
}

/// The remote URL of a record: the remembered one for a missing record; for
/// a working copy that is present what `git remote get-url origin` printed,
/// without the white space around it. `origin` is `None` where the command
/// failed.
pub open spec fn remote_url_of(r: RepoView, origin: Option<Seq<char>>) -> Option<Seq<char>> {
    if r.missing {
        r.remote_url
    } else {
        match origin {
            Some(text) => Some(trimmed(text)),
            None => None,
        }
    }
}

/// The short display name for the name of a working copy and the name of
/// its parent directory.
pub fn short_name(parent_name: Option<&str>, name: Option<&str>, path: &str) -> (r: String)
    ensures
        r@ == short_name_of(parent_name.deep_view(), name.deep_view(), path@),
        r@ == match (parent_name.deep_view(), name.deep_view()) {
            (Some(p), Some(n)) => p + seq!['/'] + n,
            (None, Some(n)) => n,
            _ => path@,
        },
{
    match (parent_name, name) {
        (Some(p), Some(n)) => {
            let mut s = String::from_str(p);
            s.append("/");
            proof {
                reveal_strlit("/");
                assert("/"@ == seq!['/']);
            }
            s.append(n);
            s
        },
        (None, Some(n)) => String::from_str(n),
        _ => String::from_str(path),
    }
}

/// Represents a Git repository with its path.
#[derive(Debug, Clone, PartialEq, Eq)]
pub struct GitRepo {
    path: String,
    branch: String,
    remote_status: Option<String>,
    status: Option<String>,
    missing: bool,
    remote_url: Option<String>,
}

impl View for GitRepo {
    type V = RepoView;

    closed spec fn view(&self) -> RepoView {
        RepoView {
            path: self.path@,
            branch: self.branch@,
            remote_status: self.remote_status.deep_view(),
            status: self.status.deep_view(),
            missing: self.missing,
            remote_url: self.remote_url.deep_view(),
        }
    }
}

impl DeepView for GitRepo {
    type V = RepoView;

    open spec fn deep_view(&self) -> RepoView {
        self@
    }
}

impl GitRepo {
    /// Create the record of a working copy that is present on disk. `head`
    /// is the content of its `.git/HEAD`, or `None` where that cannot be
    /// read. The statuses are not loaded.
    pub fn new(path: String, head: Option<&str>) -> (r: GitRepo)
        ensures
            r@ == RepoView::present(path@, branch_of_head(head.deep_view())),
    {
        let branch = GitRepo::read_branch(head);
        GitRepo { path, branch, remote_status: None, status: None, missing: false, remote_url: None }
    }

    /// Create the record of a missing working copy (known from the cache but
    /// not on disk).
    pub fn new_missing(path: String, remote_url: Option<String>) -> (r: GitRepo)
        ensures
            r@ == RepoView::absent(path@, remote_url.deep_view()),
    {
        GitRepo {
            path,
            branch: String::new(),
            remote_status: None,
            status: None,
            missing: true,
            remote_url,
        }
    }

    /// Check if this repo is missing from disk.
    pub fn is_missing(&self) -> (r: bool)
        ensures
            r == self@.missing,
    {
        self.missing
    }

    /// Mark this repository as missing (deleted) and remember the remote URL
    /// it can be cloned from again.
    pub fn set_missing(&mut self, remote_url: Option<String>)
        ensures
            final(self)@ == (RepoView {
                missing: true,
                remote_url: remote_url.deep_view(),
                ..old(self)@
            }),
    {
        self.missing = true;
        self.remote_url = remote_url;
    }

    /// Update the remote status.
    pub fn set_remote_status(&mut self, remote_status: String)
        ensures
            final(self)@ == (RepoView { remote_status: Some(remote_status@), ..old(self)@ }),
    {
        self.remote_status = Some(remote_status);
    }

    /// Update the working tree status.
    pub fn set_status(&mut self, status: String)
        ensures
            final(self)@ == (RepoView { status: Some(status@), ..old(self)@ }),
    {
        self.status = Some(status);
    }

    /// Check if both statuses are loaded.
    pub fn is_loaded(&self) -> (r: bool)
        ensures
            r == (self@.remote_status is Some && self@.status is Some),
    {
        self.remote_status.is_some() && self.status.is_some()
    }

    /// Get the repository path.
    pub fn path(&self) -> (r: &str)
        ensures
            r@ == self@.path,
    {
        self.path.as_str()
    }

    /// Get the repository name.
    pub fn name(&self) -> (r: Option<&str>)
        ensures
            r.deep_view() == self@.name(),
    {
        file_name(self.path.as_str())
    }

    /// Get the parent directory name.
    pub fn parent_name(&self) -> (r: Option<&str>)
        ensures
            r.deep_view() == self@.parent_name(),
    {
        match parent(self.path.as_str()) {
            Some(p) => file_name(p),
            None => None,
        }
    }

    /// Get a formatted display string in the form "parent/repo".
    pub fn display_short(&self) -> (r: String)
        ensures
            r@ == self@.display_short(),
    {
        short_name(self.parent_name(), self.name(), self.path.as_str())
    }

    /// Get the current branch name.
    pub fn branch(&self) -> (r: &str)
        ensures
            r@ == self@.branch,
    {
        self.branch.as_str()
    }

    /// Get the remote tracking status (ahead/behind).
    pub fn remote_status(&self) -> (r: &str)
        ensures
            r@ == self@.remote_status_label(),
    {
        match &self.remote_status {
            Some(s) => s.as_str(),
            None => "loading...",
        }
    }

    /// Get the working tree status.
    pub fn status(&self) -> (r: &str)
        ensures
            r@ == self@.status_label(),
    {
        match &self.status {
            Some(s) => s.as_str(),
            None => "loading...",
        }
    }

    /// The remote URL remembered for this record.
    pub fn cached_remote_url(&self) -> (r: Option<&str>)
        ensures
            r.deep_view() == self@.remote_url,
    {
        match &self.remote_url {
            Some(s) => Some(s.as_str()),
            None => None,
        }
    }

    /// Get the remote URL (origin). `origin` holds what
    /// `git remote get-url origin` printed in the working copy, or `None`
    /// where the command failed; a missing record does not look at it.
    pub fn get_remote_url(&self, origin: Option<&str>) -> (r: Option<String>)
        ensures
            r.deep_view() == remote_url_of(self@, origin.deep_view()),
    {
        if self.missing {
            return self.remote_url.clone();
        }
        match origin {
            Some(text) => {
                let v = chars_of(text);
                let (a, b) = trim_range(&v, 0, v.len());
                assert(v@.subrange(0, v.len() as int) == v@);
                Some(string_of_range(&v, a, b))
            },
            None => None,
        }
    }

    /// The branch label for the content of `.git/HEAD`; `None` stands for a
    /// file that cannot be read. Never fails: falls back to `unknown`.
    pub fn read_branch(head: Option<&str>) -> (r: String)
        ensures
            r@ == branch_of_head(head.deep_view()),
    {
        match head {
            None => String::from_str("unknown"),
            Some(content) => {
                let v = chars_of(content);
                let (a, b) = trim_range(&v, 0, v.len());
                let p = chars_of("ref: refs/heads/");
                proof {
                    assert(v@.subrange(0, v.len() as int) == v@);
                }
                let ghost t = trimmed(content@);
                if p.len() <= b - a && matches_at(&v, &p, a) {
                    proof {
                        assert(t.take(p.len() as int) == v@.subrange(a as int, a + p.len()));
                        assert(t.skip(p.len() as int) == v@.subrange(a + p.len(), b as int));
                    }
                    string_of_range(&v, a + p.len(), b)
                } else if b - a >= 7 {
                    proof {
                        if p.len() <= b - a {
                            assert(t.take(p.len() as int) == v@.subrange(a as int, a + p.len()));
                        }
                        assert(t.take(7) == v@.subrange(a as int, a + 7));
                    }
                    let mut s = String::from_str("detached@");
                    append_range(&mut s, &v, a, a + 7);
                    s
                } else {
                    proof {
                        if p.len() <= b - a {
                            assert(t.take(p.len() as int) == v@.subrange(a as int, a + p.len()));
                        }
                    }
                    String::from_str("unknown")
                }
            },
        }
    }
}

/// A directory name that begins with a dot: the scan passes such
/// directories by.
pub open spec fn is_hidden_name(name: Option<Seq<char>>) -> bool {
    match name {
        Some(n) => n.len() > 0 && n[0] == '.',
        None => false,
    }
}

/// Whether the scan visits a directory entry: not a hidden one, and none
/// that lies in a working copy other than the root of the scan. `file_name`
/// is the name of the entry where it is text.
pub fn scan_visits(
    file_name: Option<&str>,
    has_parent: bool,
    parent_is_root: bool,
    parent_is_repository: bool,
) -> (r: bool)
    ensures
        r == (!is_hidden_name(file_name.deep_view()) && !(has_parent && !parent_is_root
            && parent_is_repository)),
{
    let hidden = match file_name {
        Some(n) => n.unicode_len() > 0 && n.get_char(0) == '.',
        None => false,
    };
    if hidden {
        return false;
    }
    !(has_parent && !parent_is_root && parent_is_repository)
}

/// The records of the working copies that a scan found, in the order in
/// which it found them. Each entry holds the canonical path of a working copy
/// and the content of its `.git/HEAD` where that can be read.
pub fn find_git_repos(found: Vec<(String, Option<String>)>) -> (r: Vec<GitRepo>)
    ensures
        r.len() == found.len(),
        forall|i: int|
            0 <= i < found.len() ==> (#[trigger] r[i])@ == RepoView::present(
                found[i].0@,
                branch_of_head(found[i].1.deep_view()),
            ),
{
    let mut out: Vec<GitRepo> = Vec::new();
    let mut i: usize = 0;
    while i < found.len()
        invariant
            i <= found.len(),
            out.len() == i,
            forall|k: int|
                0 <= k < i ==> (#[trigger] out[k])@ == RepoView::present(
                    found[k].0@,
                    branch_of_head(found[k].1.deep_view()),
                ),
        decreases found.len() - i,
    {
        let entry = &found[i];
        let head: Option<&str> = match &entry.1 {
            Some(text) => Some(text.as_str()),
            None => None,
        };
        out.push(GitRepo::new(entry.0.clone(), head));
        i += 1;
    }
    out
}

} // verus!
