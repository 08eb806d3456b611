//! Merging the working copies that a scan found with those that the cache
//! remembers, and building the cache from the list.

use crate::config::{CachedRepo, CachedView};
use crate::git_repo::{remote_url_of, GitRepo, RepoView};
use crate::order::{sort_by, sorted_by};
use crate::util::{
    join, joined, path_before, path_lt, paths_equal, relative_to, same_path, strip_prefix,
    strip_unc_pathbuf, without_unc_prefix,
};
use vstd::prelude::*;

verus! {

/// The path of a working copy relative to the root, if it lies under the
/// root. A leading `\\?\` does not count.
pub open spec fn relative_path_of(path: Seq<char>, root: Seq<char>) -> Option<Seq<char>> {
    relative_to(without_unc_prefix(path), root)
}

/// `paths` holds a path that std takes for equal to `path`.
pub open spec fn holds_path(paths: Seq<Seq<char>>, path: Seq<char>) -> bool {
    exists|i: int| 0 <= i < paths.len() && same_path(#[trigger] paths[i], path)
}

/// The relative paths, from the root, of the records that lie under it;
/// each path once, in the order in which it first occurs. Two paths are one
/// where std takes them for equal.
pub open spec fn existing_paths(repos: Seq<RepoView>, root: Seq<char>) -> Seq<Seq<char>>
    decreases repos.len(),
{
    if repos.len() == 0 {
        Seq::empty()
    } else {
        let front = existing_paths(repos.drop_last(), root);
        match relative_path_of(repos.last().path, root) {
            Some(rel) => if holds_path(front, rel) {
                front
            } else {
                front.push(rel)
            },
            None => front,
        }
    }
}

/// The records of the cache entries whose path is not among `existing`, as
/// std compares paths: each a missing record under the root, with the remote
/// URL of its entry.
pub open spec fn missing_records(
    cached: Seq<CachedView>,
    existing: Seq<Seq<char>>,
    root: Seq<char>,
) -> Seq<RepoView>
    decreases cached.len(),
{
    if cached.len() == 0 {
        Seq::empty()
    } else {
        let front = missing_records(cached.drop_last(), existing, root);
        let entry = cached.last();
        if holds_path(existing, entry.path) {
            front
        } else {
            front.push(RepoView::absent(joined(root, entry.path), entry.remote))
        }
    }
}

/// The list that a scan found, followed by a missing record for every cache
/// entry that the scan did not find.
pub open spec fn merged(repos: Seq<RepoView>, root: Seq<char>, cached: Seq<CachedView>) -> Seq<
    RepoView,
> {
    repos + missing_records(cached, existing_paths(repos, root), root)
}

/// The remote URL that the scan read for the record at `i`, if any.
pub open spec fn origin_at(origins: Seq<Option<Seq<char>>>, i: int) -> Option<Seq<char>> {
    if 0 <= i < origins.len() {
        origins[i]
    } else {
        None
    }
}

/// The cache entries of the records that lie under the root, in the order of
/// the list.
pub open spec fn cache_entries(
    repos: Seq<RepoView>,
    origins: Seq<Option<Seq<char>>>,
    root: Seq<char>,
) -> Seq<CachedView>
    decreases repos.len(),
{
    if repos.len() == 0 {
        Seq::empty()
    } else {
        let front = cache_entries(repos.drop_last(), origins, root);
        let r = repos.last();
        match relative_path_of(r.path, root) {
            Some(rel) => front.push(
                CachedView { path: rel, remote: remote_url_of(r, origin_at(origins, repos.len() - 1)) },
            ),
            None => front,
        }
    }
}

/// The order of the cache: the order in which std puts the paths.
pub open spec fn entry_order() -> spec_fn(CachedView, CachedView) -> bool {
    |a: CachedView, b: CachedView| path_before(a.path, b.path)
}

/// The cache that is built holds the entries of the records under the root,
/// each as often as it was made.
pub proof fn lemma_cache_holds_entries(
    repos: Seq<RepoView>,
    origins: Seq<Option<Seq<char>>>,
    root: Seq<char>,
)
    ensures
        sorted_by(cache_entries(repos, origins, root), entry_order()).to_multiset()
            == cache_entries(repos, origins, root).to_multiset(),
        sorted_by(cache_entries(repos, origins, root), entry_order()).len() == cache_entries(
            repos,
            origins,
            root,
        ).len(),
{
    crate::order::lemma_sorted_by_permutation(cache_entries(repos, origins, root), entry_order());
    crate::order::lemma_sorted_by_len(cache_entries(repos, origins, root), entry_order());
}

/// Where std's order of paths is a strict order, as `Ord` asks of it, the
/// cache that is built stands in this order: no entry stands behind one that
/// its path comes before.
pub proof fn lemma_cache_in_order(
    repos: Seq<RepoView>,
    origins: Seq<Option<Seq<char>>>,
    root: Seq<char>,
)
    requires
        crate::order::strict_order(entry_order()),
    ensures
        crate::order::ordered_by(
            sorted_by(cache_entries(repos, origins, root), entry_order()),
            entry_order(),
        ),
{
    crate::order::lemma_sorted_by_ordered(cache_entries(repos, origins, root), entry_order());
}

/// Every record that the merge adds is a missing record.
pub proof fn lemma_missing_records_are_missing(
    cached: Seq<CachedView>,
    existing: Seq<Seq<char>>,
    root: Seq<char>,
    i: int,
)
    requires
        0 <= i < missing_records(cached, existing, root).len(),
    ensures
        missing_records(cached, existing, root)[i].missing,
        missing_records(cached, existing, root).len() <= cached.len(),
    decreases cached.len(),
{
    if cached.len() > 0 {
        let front = missing_records(cached.drop_last(), existing, root);
        if i < front.len() {
            lemma_missing_records_are_missing(cached.drop_last(), existing, root, i);
        } else if front.len() > 0 {
            lemma_missing_records_are_missing(cached.drop_last(), existing, root, 0);
        }
    }
}

/// The merge keeps what the scan found, in its order and at the front; what
/// follows are missing records.
pub proof fn lemma_merged_keeps_found(
    repos: Seq<RepoView>,
    root: Seq<char>,
    cached: Seq<CachedView>,
    i: int,
)
    requires
        0 <= i < merged(repos, root, cached).len(),
    ensures
        repos.len() <= merged(repos, root, cached).len(),
        i < repos.len() ==> merged(repos, root, cached)[i] == repos[i],
        i >= repos.len() ==> merged(repos, root, cached)[i].missing,
{
    if i >= repos.len() {
        lemma_missing_records_are_missing(
            cached,
            existing_paths(repos, root),
            root,
            i - repos.len(),
        );
    }
}

/// The existing paths hold no two paths that std takes for equal, the later
/// compared with the earlier, and each is the path of a record of the list
/// relative to the root.
pub proof fn lemma_existing_paths(repos: Seq<RepoView>, root: Seq<char>)
    ensures
        forall|i: int, j: int|
            0 <= i < j < existing_paths(repos, root).len() ==> !same_path(
                #[trigger] existing_paths(repos, root)[i],
                #[trigger] existing_paths(repos, root)[j],
            ),
        forall|k: int|
            0 <= k < existing_paths(repos, root).len() ==> exists|i: int|
                0 <= i < repos.len() && relative_path_of((#[trigger] repos[i]).path, root)
                    == Some(#[trigger] existing_paths(repos, root)[k]),
        existing_paths(repos, root).len() <= repos.len(),
    decreases repos.len(),
{
    if repos.len() > 0 {
        let front_repos = repos.drop_last();
        let front = existing_paths(front_repos, root);
        let all = existing_paths(repos, root);
        lemma_existing_paths(front_repos, root);
        assert forall|k: int| 0 <= k < all.len() implies exists|i: int|
            0 <= i < repos.len() && relative_path_of((#[trigger] repos[i]).path, root) == Some(
                #[trigger] all[k],
            ) by {
            if k < front.len() {
                let i = choose|i: int|
                    0 <= i < front_repos.len() && relative_path_of(
                        (#[trigger] front_repos[i]).path,
                        root,
                    ) == Some(front[k]);
                assert(repos[i] == front_repos[i]);
            } else {
                assert(repos[repos.len() - 1] == repos.last());
            }
        }
    }
}

/// Clean a path by removing the Windows prefix `\\?\`.
pub fn clean_path(path: &str) -> (r: String)
    ensures
        r@ == without_unc_prefix(path@),
{
    strip_unc_pathbuf(path)
}

/// Get relative path from root, handling the prefix `\\?\`.
pub fn get_relative_path(repo_path: &str, root_path: &str) -> (r: Option<String>)
    ensures
        r.deep_view() == relative_path_of(repo_path@, root_path@),
{
    let cleaned = clean_path(repo_path);
    match strip_prefix(cleaned.as_str(), root_path) {
        Some(rel) => Some(rel.to_owned()),
        None => None,
    }
}

/// Whether `paths` holds a path that std takes for equal to `path`.
pub fn has_path(paths: &Vec<String>, path: &str) -> (r: bool)
    ensures
        r == holds_path(paths.deep_view(), path@),
{
    let mut i: usize = 0;
    while i < paths.len()
        invariant
            i <= paths.len(),
            forall|k: int| 0 <= k < i ==> !same_path(#[trigger] paths.deep_view()[k], path@),
        decreases paths.len() - i,
    {
        assert(paths.deep_view()[i as int] == paths@[i as int]@);
        if paths_equal(paths[i].as_str(), path) {
            return true;
        }
        i += 1;
    }
    false
}

/// Build the set of existing repo relative paths.
pub fn build_existing_paths(repos: &Vec<GitRepo>, root_path: &str) -> (r: Vec<String>)
    ensures
        r.deep_view() == existing_paths(repos.deep_view(), root_path@),
{
    let ghost all = repos.deep_view();
    let mut out: Vec<String> = Vec::new();
    let mut i: usize = 0;
    assert(out.deep_view() == Seq::<Seq<char>>::empty());
    assert(all.take(0) == Seq::<RepoView>::empty());
    while i < repos.len()
        invariant
            i <= repos.len(),
            all == repos.deep_view(),
            out.deep_view() == existing_paths(all.take(i as int), root_path@),
        decreases repos.len() - i,
    {
        proof {
            assert(all.take(i + 1).drop_last() == all.take(i as int));
            assert(all.take(i + 1).last() == repos@[i as int]@);
        }
        let ghost before = out.deep_view();
        match get_relative_path(repos[i].path(), root_path) {
            Some(rel) => {
                if !has_path(&out, rel.as_str()) {
                    out.push(rel);
                    assert(out.deep_view() == before.push(rel@));
                }
            },
            None => {},
        }
        i += 1;
    }
    assert(all.take(repos.len() as int) == all);
    out
}

/// Add missing repos from cache to the repo list.
pub fn add_missing_repos(
    repos: &mut Vec<GitRepo>,
    cached_repos: &Vec<CachedRepo>,
    existing_paths: &Vec<String>,
    root_path: &str,
)
    ensures
        final(repos).deep_view() == old(repos).deep_view() + missing_records(
            cached_repos.deep_view(),
            existing_paths.deep_view(),
            root_path@,
        ),
{
    let ghost given = repos.deep_view();
    let ghost entries = cached_repos.deep_view();
    let ghost existing = existing_paths.deep_view();
    let mut i: usize = 0;
    assert(entries.take(0) == Seq::<CachedView>::empty());
    assert(given + Seq::<RepoView>::empty() == given);
    while i < cached_repos.len()
        invariant
            i <= cached_repos.len(),
            entries == cached_repos.deep_view(),
            existing == existing_paths.deep_view(),
            repos.deep_view() == given + missing_records(entries.take(i as int), existing, root_path@),
        decreases cached_repos.len() - i,
    {
        let entry = &cached_repos[i];
        proof {
            assert(entries.take(i + 1).drop_last() == entries.take(i as int));
            assert(entries.take(i + 1).last() == entry@);
        }
        let ghost before = repos.deep_view();
        if !has_path(existing_paths, entry.path.as_str()) {
            let full = join(root_path, entry.path.as_str());
            let record = GitRepo::new_missing(full, entry.remote.clone());
            repos.push(record);
            assert(repos.deep_view() == before.push(
                RepoView::absent(joined(root_path@, entry@.path), entry@.remote),
            ));
        }
        i += 1;
    }
    assert(entries.take(cached_repos.len() as int) == entries);
}

/// Merge discovered repos with cached repos by adding missing repos.
pub fn merge_with_cache(repos: &mut Vec<GitRepo>, root_path: &str, cached_repos: &Vec<CachedRepo>)
    ensures
        final(repos).deep_view() == merged(
            old(repos).deep_view(),
            root_path@,
            cached_repos.deep_view(),
        ),
{
    let existing = build_existing_paths(repos, root_path);
    add_missing_repos(repos, cached_repos, &existing, root_path);
}

/// Whether `a` stands before `b` in the cache.
fn entry_before(a: &CachedRepo, b: &CachedRepo) -> (r: bool)
    ensures
        r == path_before(a@.path, b@.path),
{
    path_lt(a.path.as_str(), b.path.as_str())
}

/// Build cache from all repos, sorted by path as std orders paths. `origins`
/// holds, by index, what `git remote get-url origin` printed in each working
/// copy that is present.
pub fn build_cache_from_repos(
    repos: &Vec<GitRepo>,
    origins: &Vec<Option<String>>,
    root_path: &str,
) -> (r: Vec<CachedRepo>)
    ensures
        r.deep_view() == sorted_by(
            cache_entries(repos.deep_view(), origins.deep_view(), root_path@),
            entry_order(),
        ),
{
    let ghost all = repos.deep_view();
    let ghost urls = origins.deep_view();
    let mut cache: Vec<CachedRepo> = Vec::new();
    let mut i: usize = 0;
    assert(cache.deep_view() == Seq::<CachedView>::empty());
    assert(all.take(0) == Seq::<RepoView>::empty());
    while i < repos.len()
        invariant
            i <= repos.len(),
            all == repos.deep_view(),
            urls == origins.deep_view(),
            cache.deep_view() == cache_entries(all.take(i as int), urls, root_path@),
        decreases repos.len() - i,
    {
        let repo = &repos[i];
        proof {
            assert(all.take(i + 1).drop_last() == all.take(i as int));
            assert(all.take(i + 1).last() == repo@);
        }
        let ghost before = cache.deep_view();
        match get_relative_path(repo.path(), root_path) {
            Some(rel) => {
                let origin: Option<&str> = if i < origins.len() {
                    match &origins[i] {
                        Some(text) => Some(text.as_str()),
                        None => None,
                    }
                } else {
                    None
                };
                assert(origin.deep_view() == origin_at(urls, i as int));
                let entry = CachedRepo { path: rel, remote: repo.get_remote_url(origin) };
                let ghost e = entry@;
                cache.push(entry);
                assert(cache.deep_view() == before.push(e));
            },
            None => {},
        }
        i += 1;
    }
    assert(all.take(repos.len() as int) == all);
    sort_by(&mut cache, entry_before, Ghost(entry_order()));
    cache
}

/// The scan starts at the configured root: there is a root, and std takes
/// the scanned path for equal to it.
pub open spec fn scans_root(scan_path: Seq<char>, root_path: Option<Seq<char>>) -> bool {
    match root_path {
        Some(root) => same_path(scan_path, root),
        None => false,
    }
}

/// Whether the scan starts at the configured root, so that the cache
/// belongs to what it finds.
pub fn is_root_scan(scan_path: &str, root_path: Option<&str>) -> (r: bool)
    ensures
        r == scans_root(scan_path@, root_path.deep_view()),
{
    match root_path {
        Some(root) => paths_equal(scan_path, root),
        None => false,
    }
}

/// The list that is loaded: what the scan found, merged with the cache
/// under the root where the scan started at the root. A cache that cannot be
/// read counts as empty.
pub open spec fn loaded(
    found: Seq<RepoView>,
    scan_path: Seq<char>,
    root_path: Option<Seq<char>>,
    cached: Option<Seq<CachedView>>,
) -> Seq<RepoView> {
    if scans_root(scan_path, root_path) {
        merged(
            found,
            root_path.unwrap(),
            match cached {
                Some(entries) => entries,
                None => Seq::empty(),
            },
        )
    } else {
        found
    }
}

/// Load repositories, merging with cache if scanning root directory. `found`
/// holds what the scan found and `cached` what the cache holds, or `None`
/// where the cache cannot be read. Says whether the scan started at the
/// root.
pub fn load_repos_with_cache(
    found: Vec<GitRepo>,
    scan_path: &str,
    root_path: Option<&str>,
    cached: Option<Vec<CachedRepo>>,
) -> (r: (Vec<GitRepo>, bool))
    ensures
        r.1 == scans_root(scan_path@, root_path.deep_view()),
        r.0.deep_view() == loaded(
            found.deep_view(),
            scan_path@,
            root_path.deep_view(),
            cached.deep_view(),
        ),
{
    let mut repos = found;
    match root_path {
        Some(root) => {
            if is_root_scan(scan_path, root_path) {
                let entries = match cached {
                    Some(entries) => entries,
                    None => Vec::new(),
                };
                assert(cached is None ==> entries.deep_view() == Seq::<CachedView>::empty());
                merge_with_cache(&mut repos, root, &entries);
                (repos, true)
            } else {
                (repos, false)
            }
        },
        None => (repos, false),
    }
}

} // verus!
