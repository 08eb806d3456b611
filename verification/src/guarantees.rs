//! What holds of the transitions of the view controller, proved from their
//! definitions in `model`.

use crate::app::FilterMode;
use crate::event::UpdateView;
use crate::git_repo::RepoView;
use crate::model::{
    next_frame, other_than, passes_filter, shown, visible_upto, with_index, without_index,
    ActionView, AppView,
};
use crate::order::{
    index_of_path, lemma_index_of_path_found, lemma_sorted_contains,
    lemma_sorted_len, lemma_sorted_ordered, lemma_sorted_permutation, ordered, sorted,
};
use vstd::prelude::*;

verus! {

/// The list of shown indices holds exactly the indices of the records that
/// are shown, each once and in rising order.
pub proof fn lemma_visible_upto(repos: Seq<RepoView>, query: Seq<char>, mode: FilterMode, n: int)
    requires
        0 <= n <= repos.len() <= usize::MAX,
    ensures
        forall|k: int|
            0 <= k < visible_upto(repos, query, mode, n).len() ==> {
                let i = #[trigger] visible_upto(repos, query, mode, n)[k];
                i < n && shown(query, mode, repos[i as int])
            },
        forall|j: int, k: int|
            0 <= j < k < visible_upto(repos, query, mode, n).len() ==> visible_upto(
                repos,
                query,
                mode,
                n,
            )[j] < visible_upto(repos, query, mode, n)[k],
        forall|i: int|
            0 <= i < n && shown(query, mode, #[trigger] repos[i]) ==> visible_upto(
                repos,
                query,
                mode,
                n,
            ).contains(i as usize),
    decreases n,
{
    if n > 0 {
        lemma_visible_upto(repos, query, mode, n - 1);
        let rest = visible_upto(repos, query, mode, n - 1);
        let all = visible_upto(repos, query, mode, n);
        assert forall|i: int| 0 <= i < n && shown(query, mode, #[trigger] repos[i]) implies all.contains(
            i as usize,
        ) by {
            if i < n - 1 {
                assert(rest.contains(i as usize));
                let k = choose|k: int| 0 <= k < rest.len() && rest[k] == i as usize;
                assert(all[k] == i as usize);
            } else {
                assert(all[all.len() - 1] == i as usize);
            }
        }
    }
}

/// The filter `All` shows every record that another filter shows, and
/// `NeedsAttention` shows every record that `Modified` or `Behind` shows.
pub proof fn lemma_filters_nest(mode: FilterMode, r: RepoView)
    ensures
        passes_filter(mode, r) ==> passes_filter(FilterMode::All, r),
        passes_filter(FilterMode::Modified, r) ==> passes_filter(FilterMode::NeedsAttention, r),
        passes_filter(FilterMode::Behind, r) ==> passes_filter(FilterMode::NeedsAttention, r),
{
}

/// For one list of records and one search text, what a filter shows is part
/// of what the filter `All` shows.
pub proof fn lemma_all_covers_every_filter(v: AppView, mode: FilterMode, i: usize)
    requires
        v.repos.len() <= usize::MAX,
        (AppView { filter_mode: mode, ..v }).visible().contains(i),
    ensures
        (AppView { filter_mode: FilterMode::All, ..v }).visible().contains(i),
{
    let n = v.repos.len() as int;
    lemma_visible_upto(v.repos, v.search_query, mode, n);
    lemma_visible_upto(v.repos, v.search_query, FilterMode::All, n);
    let some = visible_upto(v.repos, v.search_query, mode, n);
    let k = choose|k: int| 0 <= k < some.len() && some[k] == i;
    assert(shown(v.search_query, mode, v.repos[some[k] as int]));
    assert(shown(v.search_query, FilterMode::All, v.repos[i as int]));
}

/// With an empty search text and the filter `All`, every record is shown.
pub proof fn lemma_empty_query_shows_all(v: AppView, i: int)
    requires
        v.repos.len() <= usize::MAX,
        v.search_query.len() == 0,
        v.filter_mode == FilterMode::All,
        0 <= i < v.repos.len(),
    ensures
        v.visible().contains(i as usize),
        v.visible().len() == v.repos.len(),
{
    lemma_visible_upto(v.repos, v.search_query, v.filter_mode, v.repos.len() as int);
    assert(shown(v.search_query, v.filter_mode, v.repos[i]));
    lemma_all_shown_len(v.repos, v.search_query, v.filter_mode, v.repos.len() as int);
}

/// Where every record below `n` is shown, the list of shown indices has `n`
/// entries.
proof fn lemma_all_shown_len(repos: Seq<RepoView>, query: Seq<char>, mode: FilterMode, n: int)
    requires
        0 <= n <= repos.len(),
        forall|i: int| 0 <= i < n ==> shown(query, mode, #[trigger] repos[i]),
    ensures
        visible_upto(repos, query, mode, n).len() == n,
    decreases n,
{
    if n > 0 {
        lemma_all_shown_len(repos, query, mode, n - 1);
        assert(shown(query, mode, repos[n - 1]));
    }
}

/// Where records are shown, moving the selection leaves it on a record that
/// is shown; where none is shown, it stays where it is.
pub proof fn lemma_navigation_stays_shown(v: AppView)
    requires
        v.repos.len() <= usize::MAX,
    ensures
        v.visible().len() == 0 ==> v.select_next() == v && v.select_previous() == v,
        v.visible().len() > 0 ==> {
            &&& v.select_next().selected is Some
            &&& v.visible().contains(v.select_next().selected.unwrap())
            &&& v.select_previous().selected is Some
            &&& v.visible().contains(v.select_previous().selected.unwrap())
        },
{
    let shown = v.visible();
    if shown.len() > 0 {
        let current: usize = match v.selected {
            Some(i) => i,
            None => 0,
        };
        shown.index_of_first_ensures(current);
        let next = v.select_next().selected.unwrap();
        let previous = v.select_previous().selected.unwrap();
        assert(exists|k: int| 0 <= k < shown.len() && shown[k] == next);
        assert(exists|k: int| 0 <= k < shown.len() && shown[k] == previous);
    }
}

/// From the last record that is shown the selection moves on to the first,
/// and from the first back to the last.
pub proof fn lemma_navigation_wraps(v: AppView)
    requires
        v.repos.len() <= usize::MAX,
        v.visible().len() > 0,
    ensures
        v.selected == Some(v.visible().last()) ==> v.select_next().selected == Some(
            v.visible().first(),
        ),
        v.selected == Some(v.visible().first()) ==> v.select_previous().selected == Some(
            v.visible().last(),
        ),
{
    let shown = v.visible();
    lemma_visible_upto(v.repos, v.search_query, v.filter_mode, v.repos.len() as int);
    if v.selected == Some(shown.last()) {
        shown.index_of_first_ensures(shown.last());
        assert(shown[shown.len() - 1] == shown.last());
        let p = shown.index_of_first(shown.last()).unwrap();
        if p < shown.len() - 1 {
            assert(shown[p] < shown[shown.len() - 1]);
        }
    }
    if v.selected == Some(shown.first()) {
        shown.index_of_first_ensures(shown.first());
        assert(shown[0] == shown.first());
        let p = shown.index_of_first(shown.first()).unwrap();
        if p > 0 {
            assert(shown[0] < shown[p]);
        }
    }
}

/// A status report is a report of the remote status or of the working-tree
/// status.
pub open spec fn is_status_report(m: UpdateView) -> bool {
    m is RemoteStatus || m is Status
}

/// A status report for a record of the list changes this record's status
/// field, marks the state for drawing, and changes nothing else.
pub proof fn lemma_status_report_exact(v: AppView, m: UpdateView)
    requires
        is_status_report(m),
        m.index() < v.repos.len(),
    ensures
        v.git_update(m).1 == ActionView::Nothing,
        v.git_update(m).0 == (AppView {
            repos: v.git_update(m).0.repos,
            needs_redraw: true,
            ..v
        }),
        v.git_update(m).0.repos.len() == v.repos.len(),
        forall|j: int|
            0 <= j < v.repos.len() && j != m.index() ==> v.git_update(m).0.repos[j] == v.repos[j],
        m matches UpdateView::RemoteStatus(i, s) ==> v.git_update(m).0.repos[i as int] == (RepoView {
            remote_status: Some(s),
            ..v.repos[i as int]
        }),
        m matches UpdateView::Status(i, s) ==> v.git_update(m).0.repos[i as int] == (RepoView {
            status: Some(s),
            ..v.repos[i as int]
        }),
{
}

/// A status report that is delivered twice leaves the state that it leaves
/// when delivered once.
pub proof fn lemma_status_report_idempotent(v: AppView, m: UpdateView)
    requires
        is_status_report(m),
    ensures
        v.git_update(m).0.git_update(m).0 == v.git_update(m).0,
{
    let once = v.git_update(m).0;
    let twice = once.git_update(m).0;
    if m.index() < v.repos.len() {
        assert(twice.repos =~= once.repos);
    }
}

/// The state after the reports `msgs`, applied in order.
pub open spec fn after_reports(v: AppView, msgs: Seq<UpdateView>) -> AppView
    decreases msgs.len(),
{
    if msgs.len() == 0 {
        v
    } else {
        after_reports(v, msgs.drop_last()).git_update(msgs.last()).0
    }
}

/// The remote status of the record `j` after the reports `msgs`: that of the
/// last report of a remote status for `j`, and `before` where there is none.
pub open spec fn last_remote_status(
    msgs: Seq<UpdateView>,
    j: int,
    before: Option<Seq<char>>,
) -> Option<Seq<char>>
    decreases msgs.len(),
{
    if msgs.len() == 0 {
        before
    } else {
        match msgs.last() {
            UpdateView::RemoteStatus(i, s) if i == j => Some(s),
            _ => last_remote_status(msgs.drop_last(), j, before),
        }
    }
}

/// The working-tree status of the record `j` after the reports `msgs`: that
/// of the last report of a status for `j`, and `before` where there is none.
pub open spec fn last_status(
    msgs: Seq<UpdateView>,
    j: int,
    before: Option<Seq<char>>,
) -> Option<Seq<char>>
    decreases msgs.len(),
{
    if msgs.len() == 0 {
        before
    } else {
        match msgs.last() {
            UpdateView::Status(i, s) if i == j => Some(s),
            _ => last_status(msgs.drop_last(), j, before),
        }
    }
}

/// Any sequence of status reports for records of the list leaves the list as
/// long as it was and every record as it was but for its two status fields,
/// which hold what the last report for that record and that field said. The
/// rest of the state is untouched, but for the mark for drawing.
pub proof fn lemma_status_reports(v: AppView, msgs: Seq<UpdateView>)
    requires
        forall|k: int|
            0 <= k < msgs.len() ==> is_status_report(#[trigger] msgs[k]) && msgs[k].index()
                < v.repos.len(),
    ensures
        after_reports(v, msgs).repos.len() == v.repos.len(),
        forall|j: int|
            0 <= j < v.repos.len() ==> #[trigger] after_reports(v, msgs).repos[j] == (RepoView {
                remote_status: last_remote_status(msgs, j, v.repos[j].remote_status),
                status: last_status(msgs, j, v.repos[j].status),
                ..v.repos[j]
            }),
        after_reports(v, msgs) == (AppView {
            repos: after_reports(v, msgs).repos,
            needs_redraw: v.needs_redraw || msgs.len() > 0,
            ..v
        }),
    decreases msgs.len(),
{
    if msgs.len() > 0 {
        let front = msgs.drop_last();
        assert forall|k: int| 0 <= k < front.len() implies is_status_report(#[trigger] front[k])
            && front[k].index() < v.repos.len() by {
            assert(front[k] == msgs[k]);
        }
        lemma_status_reports(v, front);
        let mid = after_reports(v, front);
        assert(is_status_report(msgs[msgs.len() - 1]));
        lemma_status_report_exact(mid, msgs.last());
    }
}

/// A report whose index names no record of the list changes no record and
/// does not move the selection, and asks for nothing.
pub proof fn lemma_stale_report_harmless(v: AppView, m: UpdateView)
    requires
        m.index() >= v.repos.len(),
    ensures
        v.git_update(m).0.repos == v.repos,
        v.git_update(m).0.selected == v.selected,
        v.git_update(m).1 == ActionView::Nothing,
{
}

/// An answer whose index names no record of the list changes nothing.
pub proof fn lemma_stale_answer_harmless(
    v: AppView,
    index: usize,
    flag: bool,
    head: Option<Seq<char>>,
)
    requires
        index >= v.repos.len(),
    ensures
        v.clone_inspected(index, flag, head) == (v, ActionView::Nothing),
        v.cache_entry_removed(index, flag) == v,
{
}

/// Putting the list in order again keeps the records, leaves the list in
/// order, and the selection stands on the first record with the path that was
/// asked for, where the list holds one.
pub proof fn lemma_resorted(v: AppView, path: Seq<char>, at: int)
    requires
        0 <= at < v.repos.len() <= usize::MAX,
        v.repos[at].path == path,
    ensures
        ordered(v.resorted(path).repos),
        v.resorted(path).repos.to_multiset() == v.repos.to_multiset(),
        v.resorted(path).repos.len() == v.repos.len(),
        v.resorted(path).selected is Some,
        v.resorted(path).selected.unwrap() < v.repos.len(),
        v.resorted(path).repos[v.resorted(path).selected.unwrap() as int].path == path,
        index_of_path(v.resorted(path).repos, path) == Some(
            v.resorted(path).selected.unwrap() as int,
        ),
{
    let after = sorted(v.repos);
    lemma_sorted_ordered(v.repos);
    lemma_sorted_permutation(v.repos);
    lemma_sorted_len(v.repos);
    lemma_sorted_contains(v.repos, v.repos[at]);
    assert(v.repos.contains(v.repos[at]));
    let k = choose|k: int| 0 <= k < after.len() && after[k] == v.repos[at];
    lemma_index_of_path_found(after, path, k);
}

/// Putting the list in order again with the selection on its record keeps
/// the records and leaves the list in order. A selection that named a record
/// names a record with the same path afterwards; a selection that named none
/// stays as it is.
pub proof fn lemma_reordered(v: AppView)
    requires
        v.repos.len() <= usize::MAX,
    ensures
        ordered(v.reordered().repos),
        v.reordered().repos.to_multiset() == v.repos.to_multiset(),
        v.reordered().repos.len() == v.repos.len(),
        v.selected_index() is Some ==> {
            &&& v.reordered().selected is Some
            &&& v.reordered().selected.unwrap() < v.repos.len()
            &&& v.reordered().repos[v.reordered().selected.unwrap() as int].path
                == v.repos[v.selected_index().unwrap()].path
        },
        v.selected_index() is None ==> v.reordered().selected == v.selected,
{
    lemma_sorted_ordered(v.repos);
    lemma_sorted_permutation(v.repos);
    lemma_sorted_len(v.repos);
    match v.selected_index() {
        Some(s) => {
            lemma_resorted(v, v.repos[s].path, s);
        },
        None => {},
    }
}

/// After the report that a removal is complete, for a record of the list:
/// the record is missing and holds the remote URL that the report carried;
/// the list holds the same records otherwise and is in order, so that every
/// record of a working copy that is present stands before every missing one,
/// and each group in dictionary order of the lowercase display names; the
/// selection names a record with the path of the record that it named before,
/// whichever record was removed; and the index has left the removals in
/// flight.
pub proof fn lemma_delete_complete(v: AppView, i: usize, url: Option<Seq<char>>)
    requires
        i < v.repos.len() <= usize::MAX,
    ensures
        ({
            let n = v.git_update(UpdateView::DeleteComplete(i, url)).0;
            let marked = v.repos.update(
                i as int,
                RepoView { missing: true, remote_url: url, ..v.repos[i as int] },
            );
            &&& ordered(n.repos)
            &&& n.repos.to_multiset() == marked.to_multiset()
            &&& n.repos.len() == v.repos.len()
            &&& v.selected_index() is Some ==> n.selected is Some && n.selected.unwrap()
                < n.repos.len() && n.repos[n.selected.unwrap() as int].path
                == v.repos[v.selected_index().unwrap()].path
            &&& v.selected_index() is None ==> n.selected == v.selected
            &&& !n.deleting.contains(i)
        }),
{
    let marked = AppView {
        repos: v.repos.update(
            i as int,
            RepoView { missing: true, remote_url: url, ..v.repos[i as int] },
        ),
        deleting: without_index(v.deleting, i),
        needs_redraw: true,
        ..v
    };
    lemma_reordered(marked);
    lemma_without_index(v.deleting, i, i);
}

/// The report that a clone or a removal is complete leaves the selection on
/// the record that it named: on a record with the same path, found by the
/// path and not by the index, whatever index the report carries.
pub proof fn lemma_completion_keeps_selection(v: AppView, m: UpdateView, s: usize)
    requires
        m is CloneComplete || m is DeleteComplete,
        v.selected == Some(s),
        s < v.repos.len() <= usize::MAX,
    ensures
        v.git_update(m).0.selected is Some,
        v.git_update(m).0.selected.unwrap() < v.git_update(m).0.repos.len(),
        v.git_update(m).0.repos[v.git_update(m).0.selected.unwrap() as int].path
            == v.repos[s as int].path,
{
    match m {
        UpdateView::DeleteComplete(i, url) => {
            if i < v.repos.len() {
                lemma_delete_complete(v, i, url);
            }
        },
        _ => {},
    }
}

/// After a clone that left a directory: the slot holds a fresh record of a
/// present working copy with the same path; the list holds the same records
/// otherwise and is in order; the selection moves to the cloned record, that
/// is to a record with its path; and the probe that is asked for names that
/// place and that path.
pub proof fn lemma_clone_inspected(v: AppView, i: usize, head: Option<Seq<char>>)
    requires
        i < v.repos.len() <= usize::MAX,
    ensures
        ({
            let (n, action) = v.clone_inspected(i, true, head);
            let path = v.repos[i as int].path;
            let fresh = v.repos.update(
                i as int,
                RepoView::present(path, crate::git_repo::branch_of_head(head)),
            );
            &&& ordered(n.repos)
            &&& n.repos.to_multiset() == fresh.to_multiset()
            &&& n.repos.len() == v.repos.len()
            &&& n.selected is Some
            &&& n.selected.unwrap() < n.repos.len()
            &&& n.repos[n.selected.unwrap() as int].path == path
            &&& action == (ActionView::Probe {
                index: n.selected.unwrap(),
                path,
                fetch: v.fetch,
                update: v.update,
            })
        }),
{
    let path = v.repos[i as int].path;
    let fresh = AppView {
        repos: v.repos.update(
            i as int,
            RepoView::present(path, crate::git_repo::branch_of_head(head)),
        ),
        ..v
    };
    lemma_resorted(fresh, path, i as int);
}

/// A clone that left no directory changes nothing: the record stays missing
/// and no probe is asked for.
pub proof fn lemma_clone_failed(v: AppView, i: usize, head: Option<Seq<char>>)
    ensures
        v.clone_inspected(i, false, head) == (v, ActionView::Nothing),
{
}

/// Where the entry was not found in the cache, dropping a missing record
/// changes nothing.
pub proof fn lemma_drop_without_cache_entry(v: AppView, i: usize)
    ensures
        v.cache_entry_removed(i, false) == v,
{
}

/// `without_index` removes the index and keeps every other index.
pub proof fn lemma_without_index(s: Seq<usize>, i: usize, x: usize)
    ensures
        without_index(s, i).contains(x) == (s.contains(x) && x != i),
    decreases s.len(),
{
    reveal(Seq::filter);
    if s.len() > 0 {
        let front = s.drop_last();
        lemma_without_index(front, i, x);
        let kept = front.filter(other_than(i));
        if s.contains(x) {
            let k = choose|k: int| 0 <= k < s.len() && s[k] == x;
            if k < s.len() - 1 {
                assert(front[k] == x);
            }
        }
        if front.contains(x) {
            let k = choose|k: int| 0 <= k < front.len() && front[k] == x;
            assert(s[k] == x);
        }
        if other_than(i)(s.last()) {
            let all = kept.push(s.last());
            assert(without_index(s, i) == all);
            if kept.contains(x) {
                let k = choose|k: int| 0 <= k < kept.len() && kept[k] == x;
                assert(all[k] == x);
            }
            if s.last() == x {
                assert(all[all.len() - 1] == x);
            }
            assert(s[s.len() - 1] == s.last());
        } else {
            assert(s[s.len() - 1] == s.last());
        }
    }
}

/// The indices in flight stay a set: where no index occurs twice, none does
/// after one is added or removed.
pub proof fn lemma_in_flight_stays_set(s: Seq<usize>, i: usize)
    requires
        s.no_duplicates(),
    ensures
        with_index(s, i).no_duplicates(),
        with_index(s, i).contains(i),
        without_index(s, i).no_duplicates(),
    decreases s.len(),
{
    reveal(Seq::filter);
    if s.len() > 0 {
        let front = s.drop_last();
        lemma_in_flight_stays_set(front, i);
        lemma_without_index(front, i, s.last());
        assert(!front.contains(s.last())) by {
            if front.contains(s.last()) {
                let k = choose|k: int| 0 <= k < front.len() && front[k] == s.last();
                assert(s[k] == s[s.len() - 1]);
            }
        }
    }
    if !s.contains(i) {
        assert(s.push(i)[s.len() as int] == i);
    }
}

/// No index occurs twice among the fetches, the clones or the removals in
/// flight.
pub open spec fn in_flight_are_sets(v: AppView) -> bool {
    v.fetching.no_duplicates() && v.cloning.no_duplicates() && v.deleting.no_duplicates()
}

/// The indices in flight are sets at the start and stay sets under every
/// event, answer and tick.
pub proof fn lemma_in_flight_stay_sets(
    v: AppView,
    e: crate::event::EventView,
    index: usize,
    flag: bool,
    head: Option<Seq<char>>,
)
    requires
        in_flight_are_sets(v),
    ensures
        in_flight_are_sets(v.handle(e).0),
        in_flight_are_sets(v.clone_inspected(index, flag, head).0),
        in_flight_are_sets(v.cache_entry_removed(index, flag)),
        in_flight_are_sets(v.tick()),
        in_flight_are_sets(
            AppView::initial(v.repos, v.scan_path, v.fetch, v.update, v.root_path),
        ),
{
    match e {
        crate::event::EventView::Key(_, _) => {
            match v.selected {
                Some(i) => {
                    lemma_in_flight_stays_set(v.deleting, i);
                    lemma_in_flight_stays_set(v.cloning, i);
                },
                None => {},
            }
        },
        crate::event::EventView::GitUpdate(update) => {
            let i = update.index();
            lemma_in_flight_stays_set(v.fetching, i);
            lemma_in_flight_stays_set(v.cloning, i);
            lemma_in_flight_stays_set(v.deleting, i);
        },
    }
}

/// A key press starts a clone only for a missing record and a removal only
/// for a record that is present, so it never starts both for one record: the
/// clone key leaves the removals in flight as they are and adds the selected
/// index to the clones only where its record is missing, and the drop key
/// the other way round.
pub proof fn lemma_clone_and_removal_exclude(
    v: AppView,
    code: crate::event::KeyCode,
    modifiers: crate::event::KeyModifiers,
)
    ensures
        ({
            let (n, action) = v.normal_key(code, modifiers);
            &&& n.fetching == v.fetching
            &&& n.cloning != v.cloning ==> n.deleting == v.deleting && v.selected is Some
                && v.selected.unwrap() < v.repos.len() && v.repos[v.selected.unwrap() as int].missing
                && n.cloning == v.cloning.push(v.selected.unwrap())
            &&& n.deleting != v.deleting ==> n.cloning == v.cloning && v.selected is Some
                && v.selected.unwrap() < v.repos.len() && !v.repos[v.selected.unwrap() as int].missing
                && n.deleting == v.deleting.push(v.selected.unwrap())
            &&& action is Clone ==> v.repos[v.selected.unwrap() as int].missing
            &&& action is Delete ==> !v.repos[v.selected.unwrap() as int].missing
        }),
{
}

/// No event adds a record to the list or takes one from it: only the answer
/// that a cache entry was removed makes the list shorter, by one record.
pub proof fn lemma_list_length(
    v: AppView,
    e: crate::event::EventView,
    index: usize,
    flag: bool,
    head: Option<Seq<char>>,
)
    ensures
        v.handle(e).0.repos.len() == v.repos.len(),
        v.clone_inspected(index, flag, head).0.repos.len() == v.repos.len(),
        v.tick().repos == v.repos,
        v.cache_entry_removed(index, flag).repos.len() == if flag && index < v.repos.len()
            && v.repos[index as int].missing {
            v.repos.len() - 1
        } else {
            v.repos.len() as int
        },
{
    match e {
        crate::event::EventView::GitUpdate(UpdateView::DeleteComplete(i, url)) => {
            if i < v.repos.len() {
                lemma_sorted_len(
                    v.repos.update(
                        i as int,
                        RepoView { missing: true, remote_url: url, ..v.repos[i as int] },
                    ),
                );
            }
        },
        _ => {},
    }
    if flag && index < v.repos.len() {
        lemma_sorted_len(
            v.repos.update(
                index as int,
                RepoView::present(
                    v.repos[index as int].path,
                    crate::git_repo::branch_of_head(head),
                ),
            ),
        );
    }
}

/// The animation frame stays below ten: it is below ten at the start, and
/// where it is below ten no event, answer or tick takes it to ten or above.
pub proof fn lemma_frame_below_ten(v: AppView, e: crate::event::EventView)
    ensures
        next_frame(v.frame) < 10,
        v.frame < 10 ==> v.handle(e).0.frame < 10 && v.tick().frame < 10,
{
}

} // verus!
