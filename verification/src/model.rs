//! The view state as a mathematical value, and the transitions of the view
//! controller as functions on it.

use crate::app::FilterMode;
use crate::event::{EventView, KeyCode, KeyModifiers, UpdateView};
use crate::git_repo::{branch_of_head, loading_label, RepoView};
use crate::order::{index_of_path, sorted};
use crate::text::{lowercase_of, occurs_in};
use crate::util::{relative_to, without_unc_prefix};
use vstd::prelude::*;

verus! {

/// The mark of a remote status that counts commits to pull: a downwards
/// arrow.
pub open spec fn behind_marker() -> char {
    '\u{2193}'
}

/// The remote status of a working copy whose branch tracks no upstream.
pub open spec fn no_tracking_label() -> Seq<char> {
    "no-tracking"@
}

/// The working-tree status of a working copy without changes.
pub open spec fn clean_label() -> Seq<char> {
    "clean"@
}

/// The remote status of `r` holds the mark of commits to pull.
pub open spec fn is_behind(r: RepoView) -> bool {
    r.remote_status_label().contains(behind_marker())
}

/// The working-tree status of `r` is loaded and is not `clean`.
pub open spec fn is_modified(r: RepoView) -> bool {
    r.status_label() != clean_label() && r.status_label() != loading_label()
}

/// The record `r` belongs to what the filter `mode` shows.
pub open spec fn passes_filter(mode: FilterMode, r: RepoView) -> bool {
    match mode {
        FilterMode::All => true,
        FilterMode::NeedsAttention => is_behind(r) || r.remote_status_label()
            == no_tracking_label() || is_modified(r),
        FilterMode::Modified => is_modified(r),
        FilterMode::Behind => is_behind(r),
    }
}

/// The lowercase form of a text, where there is one.
pub open spec fn lowered(text: Option<Seq<char>>) -> Option<Seq<char>> {
    match text {
        Some(t) => Some(lowercase_of(t)),
        None => None,
    }
}

/// The text `query` is part of the name or of the parent name.
pub open spec fn search_hit_of(
    query: Seq<char>,
    name: Option<Seq<char>>,
    parent_name: Option<Seq<char>>,
) -> bool {
    ||| (name is Some && occurs_in(name.unwrap(), query))
    ||| (parent_name is Some && occurs_in(parent_name.unwrap(), query))
}

/// The record `r` matches the search text `query`: the query is empty, or
/// its lowercase form is part of the lowercase name or of the lowercase
/// parent name.
pub open spec fn matches_search(query: Seq<char>, r: RepoView) -> bool {
    query.len() == 0 || search_hit_of(
        lowercase_of(query),
        lowered(r.name()),
        lowered(r.parent_name()),
    )
}

/// The record `r` is shown under the search text `query` and the filter
/// `mode`.
pub open spec fn shown(query: Seq<char>, mode: FilterMode, r: RepoView) -> bool {
    matches_search(query, r) && passes_filter(mode, r)
}

/// The indices below `n` of the records that are shown, in rising order.
pub open spec fn visible_upto(
    repos: Seq<RepoView>,
    query: Seq<char>,
    mode: FilterMode,
    n: int,
) -> Seq<usize>
    decreases n,
{
    if n <= 0 {
        Seq::empty()
    } else {
        let rest = visible_upto(repos, query, mode, n - 1);
        if shown(query, mode, repos[n - 1]) {
            rest.push((n - 1) as usize)
        } else {
            rest
        }
    }
}

/// `s` with the index `i` added, unless it is there.
pub open spec fn with_index(s: Seq<usize>, i: usize) -> Seq<usize> {
    if s.contains(i) {
        s
    } else {
        s.push(i)
    }
}

/// The test for an index other than `i`.
pub open spec fn other_than(i: usize) -> spec_fn(usize) -> bool {
    |x: usize| x != i
}

/// `s` without the index `i`.
pub open spec fn without_index(s: Seq<usize>, i: usize) -> Seq<usize> {
    s.filter(other_than(i))
}

/// The animation frame that follows `frame`.
pub open spec fn next_frame(frame: usize) -> usize {
    ((frame + 1) % 10) as usize
}

/// What the controller asks its surroundings to do after a transition.
pub enum ActionView {
    /// Nothing.
    Nothing,
    /// Schedule a probe unit for the record at `index`.
    Probe { index: usize, path: Seq<char>, fetch: bool, update: bool },
    /// Look whether `path` is a directory now and read its `.git/HEAD`, then
    /// call `clone_inspected`.
    InspectClone { index: usize, path: Seq<char> },
    /// Schedule a clone unit for the missing record at `index`.
    Clone { index: usize, path: Seq<char>, remote_url: Option<Seq<char>> },
    /// Schedule a delete unit for the record at `index`.
    Delete { index: usize, path: Seq<char> },
    /// Remove the entry `relative_path` from the persisted cache, then call
    /// `cache_entry_removed`.
    Uncache { index: usize, relative_path: Seq<char> },
}

/// The view state.
pub struct AppView {
    pub repos: Seq<RepoView>,
    pub scan_path: Seq<char>,
    /// The selection: an index into `repos`, not into what is shown.
    pub selected: Option<usize>,
    pub should_quit: bool,
    pub needs_redraw: bool,
    /// The path that the operator picked with the confirm key.
    pub selected_repo: Option<Seq<char>>,
    pub fetching: Seq<usize>,
    pub cloning: Seq<usize>,
    pub deleting: Seq<usize>,
    pub frame: usize,
    pub filter_mode: FilterMode,
    pub search_query: Seq<char>,
    pub search_mode: bool,
    /// The root that the cache belongs to, where the scan started there.
    pub root_path: Option<Seq<char>>,
    /// Whether probe units at startup fetch.
    pub fetch: bool,
    /// Whether a fetch fast-forwards the current branch.
    pub update: bool,
}

impl AppView {
    /// The state that the controller starts in.
    pub open spec fn initial(
        repos: Seq<RepoView>,
        scan_path: Seq<char>,
        fetch: bool,
        update: bool,
        root_path: Option<Seq<char>>,
    ) -> AppView {
        AppView {
            repos: sorted(repos),
            scan_path,
            selected: if repos.len() > 0 {
                Some(0)
            } else {
                None
            },
            should_quit: false,
            needs_redraw: false,
            selected_repo: None,
            fetching: Seq::empty(),
            cloning: Seq::empty(),
            deleting: Seq::empty(),
            frame: 0,
            filter_mode: FilterMode::All,
            search_query: Seq::empty(),
            search_mode: false,
            root_path,
            fetch,
            update,
        }
    }

    /// The indices of the records that are shown, in rising order.
    pub open spec fn visible(self) -> Seq<usize> {
        visible_upto(self.repos, self.search_query, self.filter_mode, self.repos.len() as int)
    }

    /// Whether an operation is in flight.
    pub open spec fn busy(self) -> bool {
        self.fetching.len() > 0 || self.cloning.len() > 0 || self.deleting.len() > 0
    }

    /// The selection moved to the first record that is shown; to the first
    /// record where none is shown.
    pub open spec fn reset_selection(self) -> AppView {
        AppView {
            selected: Some(
                if self.visible().len() > 0 {
                    self.visible()[0]
                } else {
                    0
                },
            ),
            ..self
        }
    }

    /// The selection moved to the next record that is shown, from the last
    /// one round to the first. A selection that is not shown moves to the first.
    pub open spec fn select_next(self) -> AppView {
        let shown = self.visible();
        if shown.len() == 0 {
            self
        } else {
            let current: usize = match self.selected {
                Some(i) => i,
                None => 0,
            };
            let to: int = match shown.index_of_first(current) {
                Some(p) => if p >= shown.len() - 1 {
                    0
                } else {
                    p + 1
                },
                None => 0,
            };
            AppView { selected: Some(shown[to]), ..self }
        }
    }

    /// The selection moved to the previous record that is shown, from the
    /// first one round to the last. A selection that is not shown moves to
    /// the last.
    pub open spec fn select_previous(self) -> AppView {
        let shown = self.visible();
        if shown.len() == 0 {
            self
        } else {
            let current: usize = match self.selected {
                Some(i) => i,
                None => 0,
            };
            let to: int = match shown.index_of_first(current) {
                Some(p) => if p == 0 {
                    shown.len() - 1
                } else {
                    p - 1
                },
                None => shown.len() - 1,
            };
            AppView { selected: Some(shown[to]), ..self }
        }
    }

    /// The list put in order again, and the selection moved to the first
    /// record with the path `path`.
    pub open spec fn resorted(self, path: Seq<char>) -> AppView {
        let repos = sorted(self.repos);
        AppView {
            repos,
            selected: match index_of_path(repos, path) {
                Some(i) => Some(i as usize),
                None => self.selected,
            },
            ..self
        }
    }

    /// The index of the record that the selection names, if it names one.
    pub open spec fn selected_index(self) -> Option<int> {
        match self.selected {
            Some(s) if s < self.repos.len() => Some(s as int),
            _ => None,
        }
    }

    /// The list put in order again, with the selection on the record that it
    /// named before: on the first record with that record's path. A selection
    /// that names no record stays as it is.
    pub open spec fn reordered(self) -> AppView {
        match self.selected_index() {
            Some(s) => self.resorted(self.repos[s].path),
            None => AppView { repos: sorted(self.repos), ..self },
        }
    }

    /// A key press while the search text is edited.
    pub open spec fn search_key(self, code: KeyCode) -> AppView {
        match code {
            KeyCode::Esc => (AppView {
                search_mode: false,
                search_query: Seq::empty(),
                needs_redraw: true,
                ..self
            }).reset_selection(),
            KeyCode::Enter => AppView { search_mode: false, needs_redraw: true, ..self },
            KeyCode::Backspace => (AppView {
                search_query: if self.search_query.len() > 0 {
                    self.search_query.drop_last()
                } else {
                    self.search_query
                },
                needs_redraw: true,
                ..self
            }).reset_selection(),
            KeyCode::Char(c) => (AppView {
                search_query: self.search_query.push(c),
                needs_redraw: true,
                ..self
            }).reset_selection(),
            _ => self,
        }
    }

    /// The drop key. A missing record leaves the list once its cache entry
    /// is removed, which needs a root that its path lies under; a working copy
    /// that is present is deleted by a background unit.
    pub open spec fn drop_selected(self) -> (AppView, ActionView) {
        match self.selected {
            Some(i) if i < self.repos.len() => {
                let r = self.repos[i as int];
                if r.missing {
                    match self.root_path {
                        Some(root) => match relative_to(without_unc_prefix(r.path), root) {
                            Some(rel) => (self, ActionView::Uncache { index: i, relative_path: rel }),
                            None => (self, ActionView::Nothing),
                        },
                        None => (self, ActionView::Nothing),
                    }
                } else {
                    (
                        AppView {
                            deleting: with_index(self.deleting, i),
                            needs_redraw: true,
                            ..self
                        },
                        ActionView::Delete { index: i, path: r.path },
                    )
                }
            },
            _ => (self, ActionView::Nothing),
        }
    }

    /// The clone key: only a missing record is cloned.
    pub open spec fn clone_selected(self) -> (AppView, ActionView) {
        match self.selected {
            Some(i) if i < self.repos.len() && self.repos[i as int].missing => {
                let r = self.repos[i as int];
                (
                    AppView { cloning: with_index(self.cloning, i), needs_redraw: true, ..self },
                    ActionView::Clone { index: i, path: r.path, remote_url: r.remote_url },
                )
            },
            _ => (self, ActionView::Nothing),
        }
    }

    /// A key press outside the search.
    pub open spec fn normal_key(self, code: KeyCode, modifiers: KeyModifiers) -> (
        AppView,
        ActionView,
    ) {
        match code {
            KeyCode::Char(c) => {
                if c == 'q' || c == 'Q' || (c == 'c' && modifiers.control) {
                    (AppView { should_quit: true, ..self }, ActionView::Nothing)
                } else if c == 'j' {
                    (self.select_next(), ActionView::Nothing)
                } else if c == 'k' {
                    (self.select_previous(), ActionView::Nothing)
                } else if c == '[' {
                    (
                        (AppView {
                            filter_mode: self.filter_mode.spec_previous(),
                            needs_redraw: true,
                            ..self
                        }).reset_selection(),
                        ActionView::Nothing,
                    )
                } else if c == ']' {
                    (
                        (AppView {
                            filter_mode: self.filter_mode.spec_next(),
                            needs_redraw: true,
                            ..self
                        }).reset_selection(),
                        ActionView::Nothing,
                    )
                } else if c == '/' {
                    (
                        AppView {
                            search_mode: true,
                            search_query: Seq::empty(),
                            needs_redraw: true,
                            ..self
                        },
                        ActionView::Nothing,
                    )
                } else if c == 'd' || c == 'D' {
                    self.drop_selected()
                } else if c == 'c' || c == 'C' {
                    self.clone_selected()
                } else {
                    (self, ActionView::Nothing)
                }
            },
            KeyCode::Enter => match self.selected {
                Some(i) if i < self.repos.len() => (
                    AppView {
                        selected_repo: Some(self.repos[i as int].path),
                        should_quit: true,
                        ..self
                    },
                    ActionView::Nothing,
                ),
                _ => (self, ActionView::Nothing),
            },
            KeyCode::Down => (self.select_next(), ActionView::Nothing),
            KeyCode::Up => (self.select_previous(), ActionView::Nothing),
            _ => (self, ActionView::Nothing),
        }
    }

    /// The report of a background unit. A status report whose index names no
    /// record is dropped. The report that a removal is complete marks the
    /// record missing and puts the list in order; the selection stays on the
    /// record that it named.
    pub open spec fn git_update(self, update: UpdateView) -> (AppView, ActionView) {
        match update {
            UpdateView::RemoteStatus(i, status) => if i < self.repos.len() {
                (
                    AppView {
                        repos: self.repos.update(
                            i as int,
                            RepoView { remote_status: Some(status), ..self.repos[i as int] },
                        ),
                        needs_redraw: true,
                        ..self
                    },
                    ActionView::Nothing,
                )
            } else {
                (self, ActionView::Nothing)
            },
            UpdateView::Status(i, status) => if i < self.repos.len() {
                (
                    AppView {
                        repos: self.repos.update(
                            i as int,
                            RepoView { status: Some(status), ..self.repos[i as int] },
                        ),
                        needs_redraw: true,
                        ..self
                    },
                    ActionView::Nothing,
                )
            } else {
                (self, ActionView::Nothing)
            },
            UpdateView::FetchProgress(i) => if self.fetching.contains(i) {
                (self, ActionView::Nothing)
            } else {
                (
                    AppView { fetching: self.fetching.push(i), needs_redraw: true, ..self },
                    ActionView::Nothing,
                )
            },
            UpdateView::FetchComplete(i) => (
                AppView {
                    fetching: without_index(self.fetching, i),
                    frame: next_frame(self.frame),
                    needs_redraw: true,
                    ..self
                },
                ActionView::Nothing,
            ),
            UpdateView::CloneProgress(i) => if self.cloning.contains(i) {
                (self, ActionView::Nothing)
            } else {
                (
                    AppView { cloning: self.cloning.push(i), needs_redraw: true, ..self },
                    ActionView::Nothing,
                )
            },
            UpdateView::CloneComplete(i) => (
                AppView { cloning: without_index(self.cloning, i), needs_redraw: true, ..self },
                if i < self.repos.len() {
                    ActionView::InspectClone { index: i, path: self.repos[i as int].path }
                } else {
                    ActionView::Nothing
                },
            ),
            UpdateView::DeleteProgress(i) => if self.deleting.contains(i) {
                (self, ActionView::Nothing)
            } else {
                (
                    AppView { deleting: self.deleting.push(i), needs_redraw: true, ..self },
                    ActionView::Nothing,
                )
            },
            UpdateView::DeleteComplete(i, url) => {
                let cleared = AppView {
                    deleting: without_index(self.deleting, i),
                    needs_redraw: true,
                    ..self
                };
                if i < self.repos.len() {
                    let r = self.repos[i as int];
                    (
                        (AppView {
                            repos: self.repos.update(
                                i as int,
                                RepoView { missing: true, remote_url: url, ..r },
                            ),
                            ..cleared
                        }).reordered(),
                        ActionView::Nothing,
                    )
                } else {
                    (cleared, ActionView::Nothing)
                }
            },
        }
    }

    /// One event applied to the state: the state that follows, and what the
    /// controller asks for.
    pub open spec fn handle(self, event: EventView) -> (AppView, ActionView) {
        match event {
            EventView::Key(code, modifiers) => if self.search_mode {
                (self.search_key(code), ActionView::Nothing)
            } else {
                self.normal_key(code, modifiers)
            },
            EventView::GitUpdate(update) => self.git_update(update),
        }
    }

    /// The answer to `InspectClone`. Where the directory is there, the slot
    /// gets a fresh record of a present working copy, the list is put in
    /// order, the selection follows the record, and a probe unit as at startup
    /// is asked for under the record's new index. Where it is not, nothing
    /// changes.
    pub open spec fn clone_inspected(self, index: usize, on_disk: bool, head: Option<Seq<char>>) -> (
        AppView,
        ActionView,
    ) {
        if on_disk && index < self.repos.len() {
            let path = self.repos[index as int].path;
            let next = (AppView {
                repos: self.repos.update(
                    index as int,
                    RepoView::present(path, branch_of_head(head)),
                ),
                ..self
            }).resorted(path);
            (
                next,
                match index_of_path(next.repos, path) {
                    Some(i) => ActionView::Probe {
                        index: i as usize,
                        path,
                        fetch: self.fetch,
                        update: self.update,
                    },
                    None => ActionView::Nothing,
                },
            )
        } else {
            (self, ActionView::Nothing)
        }
    }

    /// The answer to `Uncache`. Where the entry was removed from the cache,
    /// the missing record at `index` leaves the list and the selection
    /// stays at its place, or moves to the last record. Where it was not,
    /// nothing changes.
    pub open spec fn cache_entry_removed(self, index: usize, removed: bool) -> AppView {
        if removed && index < self.repos.len() && self.repos[index as int].missing {
            let repos = self.repos.remove(index as int);
            AppView {
                repos,
                selected: if repos.len() == 0 {
                    None
                } else if index >= repos.len() {
                    Some((repos.len() - 1) as usize)
                } else {
                    Some(index)
                },
                needs_redraw: true,
                ..self
            }
        } else {
            self
        }
    }

    /// The state after it was drawn.
    pub open spec fn drawn(self) -> AppView {
        AppView { needs_redraw: false, ..self }
    }

    /// A tick of the animation timer: the frame advances while an operation
    /// is in flight.
    pub open spec fn tick(self) -> AppView {
        if self.busy() {
            AppView { frame: next_frame(self.frame), needs_redraw: true, ..self }
        } else {
            self
        }
    }
}

} // verus!
