//! Settings and cache entries as values. Reading and writing the files that
//! hold them is left to the program around the library.

use crate::text::{lowercase_of, same_text, to_lowercase};
use crate::util::{paths_equal, same_path, strip_unc_pathbuf, without_unc_prefix};
use vstd::prelude::*;

verus! {

/// The settings of the program.
#[derive(Debug, Clone, PartialEq, Eq)]
pub struct Settings {
    /// The default root directory to scan for git repositories.
    pub root_path: Option<String>,
    /// Whether to enable fast-forward merge updates by default.
    pub update_by_default: bool,
}

/// What the settings hold.
pub struct SettingsView {
    pub root_path: Option<Seq<char>>,
    pub update_by_default: bool,
}

impl View for Settings {
    type V = SettingsView;

    open spec fn view(&self) -> SettingsView {
        SettingsView {
            root_path: self.root_path.deep_view(),
            update_by_default: self.update_by_default,
        }
    }
}

/// One entry of the cache: a working copy that was seen under the root.
#[derive(Debug, Clone, PartialEq, Eq)]
pub struct CachedRepo {
    /// Relative path from the root directory.
    pub path: String,
    /// Remote URL (origin).
    pub remote: Option<String>,
}

/// What a cache entry holds.
pub struct CachedView {
    pub path: Seq<char>,
    pub remote: Option<Seq<char>>,
}

impl View for CachedRepo {
    type V = CachedView;

    open spec fn view(&self) -> CachedView {
        CachedView { path: self.path@, remote: self.remote.deep_view() }
    }
}

impl DeepView for CachedRepo {
    type V = CachedView;

    open spec fn deep_view(&self) -> CachedView {
        self@
    }
}

/// Where the scan starts.
#[derive(Debug, Clone, PartialEq, Eq)]
pub enum ScanTarget {
    /// At this path, once it is made canonical.
    Canonical(String),
    /// At the configured root, as it stands.
    Root(String),
}

/// What a scan target holds.
pub enum ScanTargetView {
    Canonical(Seq<char>),
    Root(Seq<char>),
}

impl View for ScanTarget {
    type V = ScanTargetView;

    open spec fn view(&self) -> ScanTargetView {
        match self {
            ScanTarget::Canonical(p) => ScanTargetView::Canonical(p@),
            ScanTarget::Root(p) => ScanTargetView::Root(p@),
        }
    }
}

/// What a lowercase text stands for as a flag: `true`, `false`, or nothing.
pub open spec fn flag_of(lowered: Seq<char>) -> Option<bool> {
    if lowered == "true"@ {
        Some(true)
    } else if lowered == "false"@ {
        Some(false)
    } else {
        None
    }
}

/// What the text of the `set update` command stands for: `true` or `false`
/// in any case of letters, and nothing else.
pub open spec fn update_flag_of(text: Seq<char>) -> Option<bool> {
    flag_of(lowercase_of(text))
}

/// The flag that a lowercase text stands for: `true`, `false`, or nothing.
pub fn update_flag(lowered: &str) -> (r: Option<bool>)
    ensures
        r == flag_of(lowered@),
        lowered@ == "true"@ ==> r == Some(true),
        lowered@ == "false"@ ==> r == Some(false),
        lowered@ != "true"@ && lowered@ != "false"@ ==> r is None,
{
    proof {
        reveal_strlit("true");
        reveal_strlit("false");
        assert("true"@ != "false"@) by {
            assert("true"@.len() == 4 && "false"@.len() == 5);
        }
    }
    if same_text(lowered, "true") {
        Some(true)
    } else if same_text(lowered, "false") {
        Some(false)
    } else {
        None
    }
}

impl Default for Settings {
    /// The settings of a program that was never configured.
    fn default() -> (r: Settings)
        ensures
            r@ == (SettingsView { root_path: None, update_by_default: false }),
    {
        Settings { root_path: None, update_by_default: false }
    }
}

impl Settings {
    /// Set the root path, without the prefix `\\?\` that a canonical path has
    /// on Windows.
    pub fn set_root_path(&mut self, path: &str)
        ensures
            final(self)@ == (SettingsView {
                root_path: Some(without_unc_prefix(path@)),
                ..old(self)@
            }),
    {
        self.root_path = Some(strip_unc_pathbuf(path));
    }

    /// Set whether to update by default.
    pub fn set_update(&mut self, enabled: bool)
        ensures
            final(self)@ == (SettingsView { update_by_default: enabled, ..old(self)@ }),
    {
        self.update_by_default = enabled;
    }

    /// Read the value of the `set update` command; `None` stands for a value
    /// that is neither `true` nor `false`.
    pub fn parse_update(text: &str) -> (r: Option<bool>)
        ensures
            r == update_flag_of(text@),
    {
        let low = to_lowercase(text);
        update_flag(low.as_str())
    }

    /// Where the scan starts: at the path given on the command line, else at
    /// the configured root, else at the current directory.
    pub fn scan_target(&self, argument: Option<String>) -> (r: ScanTarget)
        ensures
            r@ == match (argument, self@.root_path) {
                (Some(p), _) => ScanTargetView::Canonical(p@),
                (None, Some(root)) => ScanTargetView::Root(root),
                (None, None) => ScanTargetView::Canonical("."@),
            },
    {
        match argument {
            Some(p) => ScanTarget::Canonical(p),
            None => match &self.root_path {
                Some(root) => ScanTarget::Root(root.clone()),
                None => ScanTarget::Canonical(".".to_owned()),
            },
        }
    }
}

/// The test for a cache entry whose path is not equal to `path`, as std
/// compares paths.
pub open spec fn other_path(path: Seq<char>) -> spec_fn(CachedView) -> bool {
    |c: CachedView| !same_path(c.path, path)
}

/// Remove a repository from the cache by its relative path: every entry
/// whose path std takes for equal to it leaves the list. Says whether there
/// was one.
pub fn remove_from_cache(cached: &mut Vec<CachedRepo>, relative_path: &str) -> (removed: bool)
    ensures
        final(cached).deep_view() == old(cached).deep_view().filter(other_path(relative_path@)),
        removed == exists|i: int|
            0 <= i < old(cached).len() && same_path(
                (#[trigger] old(cached).deep_view()[i]).path,
                relative_path@,
            ),
{
    let ghost given = cached.deep_view();
    let ghost keep = other_path(relative_path@);
    let mut out: Vec<CachedRepo> = Vec::new();
    let mut removed = false;
    let n = cached.len();
    let mut k: usize = 0;
    proof {
        reveal(Seq::filter);
        assert(given.take(0).filter(keep) == Seq::<CachedView>::empty());
        assert(out.deep_view() == Seq::<CachedView>::empty());
    }
    while k < n
        invariant
            k <= n,
            n == cached.len(),
            given == cached.deep_view(),
            keep == other_path(relative_path@),
            out.deep_view() == given.take(k as int).filter(keep),
            removed == exists|i: int|
                0 <= i < k && same_path((#[trigger] given[i]).path, relative_path@),
        decreases n - k,
    {
        let entry = &cached[k];
        proof {
            assert(given.take(k + 1) == given.take(k as int).push(given[k as int]));
            given.take(k as int).lemma_filter_push(given[k as int], keep);
            assert(given[k as int] == entry@);
        }
        let ghost before = out.deep_view();
        if paths_equal(entry.path.as_str(), relative_path) {
            removed = true;
        } else {
            out.push(CachedRepo { path: entry.path.clone(), remote: entry.remote.clone() });
            assert(out.deep_view() == before.push(entry@));
        }
        k += 1;
    }
    proof {
        assert(given.take(n as int) == given);
    }
    *cached = out;
    removed
}

} // verus!
