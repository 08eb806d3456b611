//! The view controller: it owns the repository list and the view state, and
//! applies one event at a time.

use crate::event::{GitDataUpdate, KeyCode, KeyModifiers, TerminalEvent};
use crate::git_repo::GitRepo;
use crate::model::{
    is_modified, matches_search, other_than, passes_filter, search_hit_of, visible_upto,
    with_index, without_index, ActionView, AppView,
};
use crate::order::{find_by_path, sort_repos};
use crate::text::{
    chars_of, contains, has_char, lowercase_of, push_char, same_text, string_of_range,
    to_lowercase,
};
use crate::util::{strip_prefix, strip_unc_prefix};
use vstd::prelude::*;

verus! {

/// Filter mode for displaying repositories.
#[derive(Debug, Clone, Copy, PartialEq, Eq, Structural)]
pub enum FilterMode {
    All,
    NeedsAttention,
    Modified,
    Behind,
}

impl FilterMode {
    /// The mode that follows `self` in the cycle All, NeedsAttention, Behind,
    /// Modified.
    pub open spec fn spec_next(self) -> FilterMode {
        match self {
            FilterMode::All => FilterMode::NeedsAttention,
            FilterMode::NeedsAttention => FilterMode::Behind,
            FilterMode::Behind => FilterMode::Modified,
            FilterMode::Modified => FilterMode::All,
        }
    }

    /// The mode that precedes `self` in the same cycle.
    pub open spec fn spec_previous(self) -> FilterMode {
        match self {
            FilterMode::All => FilterMode::Modified,
            FilterMode::Modified => FilterMode::Behind,
            FilterMode::Behind => FilterMode::NeedsAttention,
            FilterMode::NeedsAttention => FilterMode::All,
        }
    }

    /// The name under which the mode is shown.
    pub open spec fn spec_display_name(self) -> Seq<char> {
        match self {
            FilterMode::All => "All"@,
            FilterMode::NeedsAttention => "Needs Attention"@,
            FilterMode::Modified => "Modified"@,
            FilterMode::Behind => "Behind"@,
        }
    }

    /// Get the next filter mode in the cycle.
    pub fn next(&self) -> (r: FilterMode)
        ensures
            r == self.spec_next(),
    {
        match self {
            FilterMode::All => FilterMode::NeedsAttention,
            FilterMode::NeedsAttention => FilterMode::Behind,
            FilterMode::Behind => FilterMode::Modified,
            FilterMode::Modified => FilterMode::All,
        }
    }

    /// Get the previous filter mode in the cycle.
    pub fn previous(&self) -> (r: FilterMode)
        ensures
            r == self.spec_previous(),
    {
        match self {
            FilterMode::All => FilterMode::Modified,
            FilterMode::Modified => FilterMode::Behind,
            FilterMode::Behind => FilterMode::NeedsAttention,
            FilterMode::NeedsAttention => FilterMode::All,
        }
    }

    /// Get display name for the filter mode.
    pub fn display_name(&self) -> (r: &'static str)
        ensures
            r@ == self.spec_display_name(),
    {
        match self {
            FilterMode::All => "All",
            FilterMode::NeedsAttention => "Needs Attention",
            FilterMode::Modified => "Modified",
            FilterMode::Behind => "Behind",
        }
    }
}

/// Going forward and then back in the cycle of filter modes, or back and
/// then forward, leads to the mode one started from, and four steps forward
/// go once round.
pub proof fn lemma_filter_cycle(mode: FilterMode)
    ensures
        mode.spec_next().spec_previous() == mode,
        mode.spec_previous().spec_next() == mode,
        mode.spec_next().spec_next().spec_next().spec_next() == mode,
{
}

/// What the controller asks its surroundings to do after a transition.
#[derive(Debug, Clone, PartialEq, Eq)]
pub enum Action {
    /// Nothing.
    Nothing,
    /// Schedule a probe unit for the record at `index`.
    Probe { index: usize, path: String, fetch: bool, update: bool },
    /// Look whether `path` is a directory now and read its `.git/HEAD`, then
    /// call `clone_inspected`.
    InspectClone { index: usize, path: String },
    /// Schedule a clone unit for the missing record at `index`.
    Clone { index: usize, path: String, remote_url: Option<String> },
    /// Schedule a delete unit for the record at `index`.
    Delete { index: usize, path: String },
    /// Remove the entry `relative_path` from the persisted cache, then call
    /// `cache_entry_removed`.
    Uncache { index: usize, relative_path: String },
}

impl View for Action {
    type V = ActionView;

    open spec fn view(&self) -> ActionView {
        match self {
            Action::Nothing => ActionView::Nothing,
            Action::Probe { index, path, fetch, update } => ActionView::Probe {
                index: *index,
                path: path@,
                fetch: *fetch,
                update: *update,
            },
            Action::InspectClone { index, path } => ActionView::InspectClone {
                index: *index,
                path: path@,
            },
            Action::Clone { index, path, remote_url } => ActionView::Clone {
                index: *index,
                path: path@,
                remote_url: remote_url.deep_view(),
            },
            Action::Delete { index, path } => ActionView::Delete { index: *index, path: path@ },
            Action::Uncache { index, relative_path } => ActionView::Uncache {
                index: *index,
                relative_path: relative_path@,
            },
        }
    }
}

/// Whether the text `query` is part of the name or of the parent name. All
/// three are taken as they are: for a search in any case of letters, hand
/// over their lowercase forms.
pub fn search_hit(query: &str, name: Option<&str>, parent_name: Option<&str>) -> (r: bool)
    ensures
        r == search_hit_of(query@, name.deep_view(), parent_name.deep_view()),
{
    let q = chars_of(query);
    let in_name = match name {
        Some(n) => contains(&chars_of(n), &q),
        None => false,
    };
    let in_parent = match parent_name {
        Some(p) => contains(&chars_of(p), &q),
        None => false,
    };
    in_name || in_parent
}

/// Whether the record matches the search text, whose lowercase form is
/// `lowered`.
fn matches_lowered(repo: &GitRepo, query: &str, lowered: &str) -> (r: bool)
    requires
        lowered@ == lowercase_of(query@),
    ensures
        r == matches_search(query@, repo@),
{
    if query.is_empty() {
        return true;
    }
    let name: Option<String> = match repo.name() {
        Some(n) => Some(to_lowercase(n)),
        None => None,
    };
    let parent_name: Option<String> = match repo.parent_name() {
        Some(p) => Some(to_lowercase(p)),
        None => None,
    };
    let name_text: Option<&str> = match &name {
        Some(n) => Some(n.as_str()),
        None => None,
    };
    let parent_text: Option<&str> = match &parent_name {
        Some(p) => Some(p.as_str()),
        None => None,
    };
    search_hit(lowered, name_text, parent_text)
}

/// Whether the record matches the search text: case-insensitively, against
/// its name and the name of its parent. An empty text matches every record.
pub fn matches_query(repo: &GitRepo, query: &str) -> (r: bool)
    ensures
        r == matches_search(query@, repo@),
        query@.len() == 0 ==> r,
{
    let lowered = to_lowercase(query);
    matches_lowered(repo, query, lowered.as_str())
}

/// Whether the working-tree status of the record is loaded and not `clean`.
fn modified(repo: &GitRepo) -> (r: bool)
    ensures
        r == is_modified(repo@),
{
    let status = repo.status();
    !same_text(status, "clean") && !same_text(status, "loading...")
}

/// Whether the record belongs to what the filter `mode` shows.
pub fn passes(mode: FilterMode, repo: &GitRepo) -> (r: bool)
    ensures
        r == passes_filter(mode, repo@),
        mode == FilterMode::All ==> r,
{
    match mode {
        FilterMode::All => true,
        FilterMode::NeedsAttention => {
            let remote = repo.remote_status();
            has_char(remote, '\u{2193}') || same_text(remote, "no-tracking") || modified(repo)
        },
        FilterMode::Modified => modified(repo),
        FilterMode::Behind => has_char(repo.remote_status(), '\u{2193}'),
    }
}

/// Adds `i` to the indices in flight, unless it is there; says whether it
/// was added.
fn add_index(set: &mut Vec<usize>, i: usize) -> (added: bool)
    ensures
        final(set)@ == with_index(old(set)@, i),
        added == !old(set)@.contains(i),
{
    let mut k: usize = 0;
    while k < set.len()
        invariant
            k <= set.len(),
            set@ == old(set)@,
            forall|j: int| 0 <= j < k ==> set@[j] != i,
        decreases set.len() - k,
    {
        if set[k] == i {
            return false;
        }
        k += 1;
    }
    set.push(i);
    true
}

/// Removes `i` from the indices in flight.
fn remove_index(set: &mut Vec<usize>, i: usize)
    ensures
        final(set)@ == without_index(old(set)@, i),
{
    let ghost keep = other_than(i);
    let mut out: Vec<usize> = Vec::new();
    let mut k: usize = 0;
    proof {
        reveal(Seq::filter);
        assert(set@.take(0).filter(keep) == Seq::<usize>::empty());
    }
    while k < set.len()
        invariant
            k <= set.len(),
            set@ == old(set)@,
            keep == other_than(i),
            out@ == set@.take(k as int).filter(keep),
        decreases set.len() - k,
    {
        proof {
            assert(set@.take(k + 1) == set@.take(k as int).push(set@[k as int]));
            set@.take(k as int).lemma_filter_push(set@[k as int], keep);
        }
        if set[k] != i {
            out.push(set[k]);
        }
        k += 1;
    }
    proof {
        assert(set@.take(set.len() as int) == set@);
    }
    *set = out;
}

/// Application state.
pub struct App {
    repos: Vec<GitRepo>,
    scan_path: String,
    selected: Option<usize>,
    should_quit: bool,
    needs_redraw: bool,
    selected_repo: Option<String>,
    fetching_repos: Vec<usize>,
    cloning_repos: Vec<usize>,
    deleting_repos: Vec<usize>,
    fetch_animation_frame: usize,
    filter_mode: FilterMode,
    search_query: String,
    search_mode: bool,
    root_path: Option<String>,
    fetch: bool,
    update: bool,
}

impl View for App {
    type V = AppView;

    closed spec fn view(&self) -> AppView {
        AppView {
            repos: self.repos.deep_view(),
            scan_path: self.scan_path@,
            selected: self.selected,
            should_quit: self.should_quit,
            needs_redraw: self.needs_redraw,
            selected_repo: self.selected_repo.deep_view(),
            fetching: self.fetching_repos@,
            cloning: self.cloning_repos@,
            deleting: self.deleting_repos@,
            frame: self.fetch_animation_frame,
            filter_mode: self.filter_mode,
            search_query: self.search_query@,
            search_mode: self.search_mode,
            root_path: self.root_path.deep_view(),
            fetch: self.fetch,
            update: self.update,
        }
    }
}

impl App {
    /// Create a new App instance.
    pub fn new(repos: Vec<GitRepo>, scan_path: &str, fetch: bool, update: bool) -> (r: App)
        ensures
            r@ == AppView::initial(repos.deep_view(), scan_path@, fetch, update, None),
    {
        App::new_with_root(repos, scan_path, fetch, update, None)
    }

    /// Create a new App instance with optional root path. The records are
    /// put in order and the first one is selected.
    pub fn new_with_root(
        repos: Vec<GitRepo>,
        scan_path: &str,
        fetch: bool,
        update: bool,
        root_path: Option<String>,
    ) -> (r: App)
        ensures
            r@ == AppView::initial(
                repos.deep_view(),
                scan_path@,
                fetch,
                update,
                root_path.deep_view(),
            ),
    {
        let mut repos = repos;
        let ghost given = repos.deep_view();
        sort_repos(&mut repos);
        proof {
            crate::order::lemma_sorted_len(given);
        }
        let selected = if repos.len() > 0 {
            Some(0)
        } else {
            None
        };
        App {
            repos,
            scan_path: scan_path.to_owned(),
            selected,
            should_quit: false,
            needs_redraw: false,
            selected_repo: None,
            fetching_repos: Vec::new(),
            cloning_repos: Vec::new(),
            deleting_repos: Vec::new(),
            fetch_animation_frame: 0,
            filter_mode: FilterMode::All,
            search_query: String::new(),
            search_mode: false,
            root_path,
            fetch,
            update,
        }
    }

    /// The probe units to schedule at startup: one for every record, under
    /// the index that the record has now.
    pub fn startup_units(&self) -> (r: Vec<Action>)
        ensures
            r.len() == self@.repos.len(),
            forall|i: int|
                0 <= i < r.len() ==> (#[trigger] r[i])@ == (ActionView::Probe {
                    index: i as usize,
                    path: self@.repos[i].path,
                    fetch: self@.fetch,
                    update: self@.update,
                }),
    {
        let mut out: Vec<Action> = Vec::new();
        let mut i: usize = 0;
        while i < self.repos.len()
            invariant
                i <= self.repos.len(),
                out.len() == i,
                forall|k: int|
                    0 <= k < i ==> (#[trigger] out[k])@ == (ActionView::Probe {
                        index: k as usize,
                        path: self@.repos[k].path,
                        fetch: self@.fetch,
                        update: self@.update,
                    }),
            decreases self.repos.len() - i,
        {
            out.push(
                Action::Probe {
                    index: i,
                    path: self.repos[i].path().to_owned(),
                    fetch: self.fetch,
                    update: self.update,
                },
            );
            i += 1;
        }
        out
    }

    /// Get the repositories (for saving cache).
    pub fn repos(&self) -> (r: &Vec<GitRepo>)
        ensures
            r.deep_view() == self@.repos,
    {
        &self.repos
    }

    /// The path that was scanned, as shown in the title.
    pub fn scan_path(&self) -> (r: &str)
        ensures
            r@ == self@.scan_path,
    {
        self.scan_path.as_str()
    }

    /// The selection: an index into the whole list.
    pub fn selected(&self) -> (r: Option<usize>)
        ensures
            r == self@.selected,
    {
        self.selected
    }

    /// Whether the operator asked to quit.
    pub fn should_quit(&self) -> (r: bool)
        ensures
            r == self@.should_quit,
    {
        self.should_quit
    }

    /// Whether the state changed since it was last drawn.
    pub fn needs_redraw(&self) -> (r: bool)
        ensures
            r == self@.needs_redraw,
    {
        self.needs_redraw
    }

    /// The path that the operator picked with the confirm key.
    pub fn selected_repo(&self) -> (r: Option<&str>)
        ensures
            r.deep_view() == self@.selected_repo,
    {
        match &self.selected_repo {
            Some(s) => Some(s.as_str()),
            None => None,
        }
    }

    /// The indices whose fetch is in flight.
    pub fn fetching_repos(&self) -> (r: &Vec<usize>)
        ensures
            r@ == self@.fetching,
    {
        &self.fetching_repos
    }

    /// The indices whose clone is in flight.
    pub fn cloning_repos(&self) -> (r: &Vec<usize>)
        ensures
            r@ == self@.cloning,
    {
        &self.cloning_repos
    }

    /// The indices whose removal is in flight.
    pub fn deleting_repos(&self) -> (r: &Vec<usize>)
        ensures
            r@ == self@.deleting,
    {
        &self.deleting_repos
    }

    /// The frame of the progress animation.
    pub fn fetch_animation_frame(&self) -> (r: usize)
        ensures
            r == self@.frame,
    {
        self.fetch_animation_frame
    }

    /// The filter in force.
    pub fn filter_mode(&self) -> (r: FilterMode)
        ensures
            r == self@.filter_mode,
    {
        self.filter_mode
    }

    /// The root that the cache belongs to, where the scan started there.
    pub fn root_path(&self) -> (r: Option<&str>)
        ensures
            r.deep_view() == self@.root_path,
    {
        match &self.root_path {
            Some(s) => Some(s.as_str()),
            None => None,
        }
    }

    /// Check if search mode is active.
    pub fn is_search_mode(&self) -> (r: bool)
        ensures
            r == self@.search_mode,
    {
        self.search_mode
    }

    /// Get current search query.
    pub fn search_query(&self) -> (r: &str)
        ensures
            r@ == self@.search_query,
    {
        self.search_query.as_str()
    }

    /// Get filtered list of repository indices based on the search text and
    /// the current filter mode.
    pub fn filtered_repos(&self) -> (r: Vec<usize>)
        ensures
            r@ == self@.visible(),
    {
        let query = self.search_query.as_str();
        let lowered = to_lowercase(query);
        let mut out: Vec<usize> = Vec::new();
        let mut i: usize = 0;
        while i < self.repos.len()
            invariant
                i <= self.repos.len(),
                query@ == self@.search_query,
                lowered@ == lowercase_of(query@),
                out@ == visible_upto(
                    self@.repos,
                    self@.search_query,
                    self@.filter_mode,
                    i as int,
                ),
            decreases self.repos.len() - i,
        {
            let repo = &self.repos[i];
            if matches_lowered(repo, query, lowered.as_str()) && passes(self.filter_mode, repo) {
                out.push(i);
            }
            i += 1;
        }
        out
    }
}

impl App {
    /// Move the selection to the first record that is shown, to the first
    /// record where none is shown.
    fn reset_selection(&mut self)
        ensures
            final(self)@ == old(self)@.reset_selection(),
    {
        let shown = self.filtered_repos();
        if shown.len() > 0 {
            self.selected = Some(shown[0]);
        } else {
            self.selected = Some(0);
        }
    }

    /// Where the selection stands in the list `shown`.
    fn position_in(&self, shown: &Vec<usize>) -> (r: Option<usize>)
        ensures
            match r {
                Some(p) => p < shown.len() && shown@.index_of_first(self.selection_or_first())
                    == Some(p as int),
                None => shown@.index_of_first(self.selection_or_first()) is None,
            },
    {
        let current = match self.selected {
            Some(i) => i,
            None => 0,
        };
        let mut k: usize = 0;
        while k < shown.len()
            invariant
                k <= shown.len(),
                current == self.selection_or_first(),
                forall|j: int| 0 <= j < k ==> shown@[j] != current,
            decreases shown.len() - k,
        {
            if shown[k] == current {
                proof {
                    shown@.index_of_first_ensures(current);
                    assert(shown@[k as int] == current);
                    assert(shown@.contains(current));
                    let first = shown@.index_of_first(current).unwrap();
                    if first < k {
                        assert(shown@[first] != current);
                    }
                    if first > k {
                        assert(shown@[k as int] != current);
                    }
                }
                return Some(k);
            }
            k += 1;
        }
        proof {
            shown@.index_of_first_ensures(current);
        }
        None
    }

    /// The selected index, or the first index where nothing is selected.
    spec fn selection_or_first(&self) -> usize {
        match self.selected {
            Some(i) => i,
            None => 0,
        }
    }

    /// Move to next item.
    pub fn next(&mut self)
        ensures
            final(self)@ == old(self)@.select_next(),
    {
        let shown = self.filtered_repos();
        if shown.len() == 0 {
            return ;
        }
        let to = match self.position_in(&shown) {
            Some(p) => if p >= shown.len() - 1 {
                0
            } else {
                p + 1
            },
            None => 0,
        };
        self.selected = Some(shown[to]);
    }

    /// Move to previous item.
    pub fn previous(&mut self)
        ensures
            final(self)@ == old(self)@.select_previous(),
    {
        let shown = self.filtered_repos();
        if shown.len() == 0 {
            return ;
        }
        let to = match self.position_in(&shown) {
            Some(p) => if p == 0 {
                shown.len() - 1
            } else {
                p - 1
            },
            None => shown.len() - 1,
        };
        self.selected = Some(shown[to]);
    }

    /// Put the list in order again and move the selection to the first record
    /// with the path `path`.
    fn resort(&mut self, path: &str)
        ensures
            final(self)@ == old(self)@.resorted(path@),
    {
        sort_repos(&mut self.repos);
        match find_by_path(&self.repos, path) {
            Some(k) => {
                self.selected = Some(k);
            },
            None => {},
        }
    }

    /// Put the list in order again and keep the selection on the record that
    /// it names.
    fn reorder(&mut self)
        ensures
            final(self)@ == old(self)@.reordered(),
    {
        let kept = match self.selected {
            Some(s) => if s < self.repos.len() {
                Some(self.repos[s].path().to_owned())
            } else {
                None
            },
            None => None,
        };
        match kept {
            Some(path) => self.resort(path.as_str()),
            None => sort_repos(&mut self.repos),
        }
    }

    /// A key press while the search text is edited.
    fn handle_search_key(&mut self, code: KeyCode)
        ensures
            final(self)@ == old(self)@.search_key(code),
    {
        match code {
            KeyCode::Esc => {
                self.search_mode = false;
                self.search_query = String::new();
                self.needs_redraw = true;
                self.reset_selection();
            },
            KeyCode::Enter => {
                self.search_mode = false;
                self.needs_redraw = true;
            },
            KeyCode::Backspace => {
                let v = chars_of(self.search_query.as_str());
                if v.len() > 0 {
                    self.search_query = string_of_range(&v, 0, v.len() - 1);
                    assert(v@.subrange(0, v.len() - 1) == v@.drop_last());
                }
                self.needs_redraw = true;
                self.reset_selection();
            },
            KeyCode::Char(c) => {
                push_char(&mut self.search_query, c);
                self.needs_redraw = true;
                self.reset_selection();
            },
            _ => {},
        }
    }

    /// Handle dropping a repository.
    fn handle_drop_repo(&mut self) -> (action: Action)
        ensures
            (final(self)@, action@) == old(self)@.drop_selected(),
    {
        let selected = match self.selected {
            Some(i) => i,
            None => {
                return Action::Nothing;
            },
        };
        if selected >= self.repos.len() {
            return Action::Nothing;
        }
        let repo = &self.repos[selected];
        if repo.is_missing() {
            match &self.root_path {
                Some(root) => {
                    let cleaned = strip_unc_prefix(repo.path());
                    match strip_prefix(cleaned, root.as_str()) {
                        Some(rel) => Action::Uncache {
                            index: selected,
                            relative_path: rel.to_owned(),
                        },
                        None => Action::Nothing,
                    }
                },
                None => Action::Nothing,
            }
        } else {
            let path = repo.path().to_owned();
            add_index(&mut self.deleting_repos, selected);
            self.needs_redraw = true;
            Action::Delete { index: selected, path }
        }
    }

    /// Handle cloning a missing repository.
    fn handle_clone_repo(&mut self) -> (action: Action)
        ensures
            (final(self)@, action@) == old(self)@.clone_selected(),
    {
        let selected = match self.selected {
            Some(i) => i,
            None => {
                return Action::Nothing;
            },
        };
        if selected >= self.repos.len() {
            return Action::Nothing;
        }
        let repo = &self.repos[selected];
        if !repo.is_missing() {
            return Action::Nothing;
        }
        let path = repo.path().to_owned();
        let remote_url = match repo.cached_remote_url() {
            Some(u) => Some(u.to_owned()),
            None => None,
        };
        add_index(&mut self.cloning_repos, selected);
        self.needs_redraw = true;
        Action::Clone { index: selected, path, remote_url }
    }

    /// A key press outside the search.
    fn handle_normal_key(&mut self, code: KeyCode, modifiers: KeyModifiers) -> (action: Action)
        ensures
            (final(self)@, action@) == old(self)@.normal_key(code, modifiers),
    {
        match code {
            KeyCode::Char(c) => {
                if c == 'q' || c == 'Q' || (c == 'c' && modifiers.control) {
                    self.should_quit = true;
                    Action::Nothing
                } else if c == 'j' {
                    self.next();
                    Action::Nothing
                } else if c == 'k' {
                    self.previous();
                    Action::Nothing
                } else if c == '[' {
                    self.filter_mode = self.filter_mode.previous();
                    self.needs_redraw = true;
                    self.reset_selection();
                    Action::Nothing
                } else if c == ']' {
                    self.filter_mode = self.filter_mode.next();
                    self.needs_redraw = true;
                    self.reset_selection();
                    Action::Nothing
                } else if c == '/' {
                    self.search_mode = true;
                    self.search_query = String::new();
                    self.needs_redraw = true;
                    Action::Nothing
                } else if c == 'd' || c == 'D' {
                    self.handle_drop_repo()
                } else if c == 'c' || c == 'C' {
                    self.handle_clone_repo()
                } else {
                    Action::Nothing
                }
            },
            KeyCode::Enter => {
                match self.selected {
                    Some(i) => {
                        if i < self.repos.len() {
                            self.selected_repo = Some(self.repos[i].path().to_owned());
                            self.should_quit = true;
                        }
                    },
                    None => {},
                }
                Action::Nothing
            },
            KeyCode::Down => {
                self.next();
                Action::Nothing
            },
            KeyCode::Up => {
                self.previous();
                Action::Nothing
            },
            _ => Action::Nothing,
        }
    }

    /// The report of a background unit.
    fn handle_git_update(&mut self, update: GitDataUpdate) -> (action: Action)
        ensures
            (final(self)@, action@) == old(self)@.git_update(update@),
    {
        match update {
            GitDataUpdate::RemoteStatus(idx, status) => {
                if idx < self.repos.len() {
                    self.repos[idx].set_remote_status(status);
                    self.needs_redraw = true;
                    assert(self.repos.deep_view() == old(self).repos.deep_view().update(
                        idx as int,
                        self.repos@[idx as int]@,
                    ));
                }
                Action::Nothing
            },
            GitDataUpdate::Status(idx, status) => {
                if idx < self.repos.len() {
                    self.repos[idx].set_status(status);
                    self.needs_redraw = true;
                    assert(self.repos.deep_view() == old(self).repos.deep_view().update(
                        idx as int,
                        self.repos@[idx as int]@,
                    ));
                }
                Action::Nothing
            },
            GitDataUpdate::FetchProgress(idx) => {
                if add_index(&mut self.fetching_repos, idx) {
                    self.needs_redraw = true;
                }
                Action::Nothing
            },
            GitDataUpdate::FetchComplete(idx) => {
                remove_index(&mut self.fetching_repos, idx);
                self.fetch_animation_frame = (self.fetch_animation_frame % 10 + 1) % 10;
                self.needs_redraw = true;
                Action::Nothing
            },
            GitDataUpdate::CloneProgress(idx) => {
                if add_index(&mut self.cloning_repos, idx) {
                    self.needs_redraw = true;
                }
                Action::Nothing
            },
            GitDataUpdate::CloneComplete(idx) => {
                remove_index(&mut self.cloning_repos, idx);
                self.needs_redraw = true;
                if idx < self.repos.len() {
                    Action::InspectClone { index: idx, path: self.repos[idx].path().to_owned() }
                } else {
                    Action::Nothing
                }
            },
            GitDataUpdate::DeleteProgress(idx) => {
                if add_index(&mut self.deleting_repos, idx) {
                    self.needs_redraw = true;
                }
                Action::Nothing
            },
            GitDataUpdate::DeleteComplete(idx, remote_url) => {
                remove_index(&mut self.deleting_repos, idx);
                self.needs_redraw = true;
                if idx < self.repos.len() {
                    self.repos[idx].set_missing(remote_url);
                    assert(self.repos.deep_view() == old(self).repos.deep_view().update(
                        idx as int,
                        self.repos@[idx as int]@,
                    ));
                    self.reorder();
                }
                Action::Nothing
            },
        }
    }

    /// Handle terminal events: apply one event to the state and say what
    /// the surroundings have to do.
    pub fn handle_event(&mut self, event: TerminalEvent) -> (action: Action)
        ensures
            (final(self)@, action@) == old(self)@.handle(event@),
    {
        match event {
            TerminalEvent::Key(code, modifiers) => {
                if self.search_mode {
                    self.handle_search_key(code);
                    Action::Nothing
                } else {
                    self.handle_normal_key(code, modifiers)
                }
            },
            TerminalEvent::GitUpdate(update) => self.handle_git_update(update),
        }
    }

    /// The answer to `Action::InspectClone`: `on_disk` says whether the
    /// directory of the record at `index` is there now, `head` holds the
    /// content of its `.git/HEAD` where that can be read. A clone that left no
    /// directory leaves the record missing, and no probe is asked for.
    pub fn clone_inspected(&mut self, index: usize, on_disk: bool, head: Option<&str>) -> (action:
        Action)
        ensures
            (final(self)@, action@) == old(self)@.clone_inspected(
                index,
                on_disk,
                head.deep_view(),
            ),
    {
        if on_disk && index < self.repos.len() {
            let path = self.repos[index].path().to_owned();
            let fresh = GitRepo::new(path.clone(), head);
            self.repos[index] = fresh;
            assert(self.repos.deep_view() == old(self).repos.deep_view().update(
                index as int,
                self.repos@[index as int]@,
            ));
            self.resort(path.as_str());
            match find_by_path(&self.repos, path.as_str()) {
                Some(k) => Action::Probe {
                    index: k,
                    path,
                    fetch: self.fetch,
                    update: self.update,
                },
                None => Action::Nothing,
            }
        } else {
            Action::Nothing
        }
    }

    /// The answer to `Action::Uncache`: `removed` says whether the entry was
    /// found in the persisted cache and removed from it. Where it was not,
    /// the list stays as it is.
    pub fn cache_entry_removed(&mut self, index: usize, removed: bool)
        ensures
            final(self)@ == old(self)@.cache_entry_removed(index, removed),
    {
        if removed && index < self.repos.len() && self.repos[index].is_missing() {
            self.repos.remove(index);
            assert(self.repos.deep_view() == old(self).repos.deep_view().remove(index as int));
            if self.repos.len() == 0 {
                self.selected = None;
            } else if index >= self.repos.len() {
                self.selected = Some(self.repos.len() - 1);
            } else {
                self.selected = Some(index);
            }
            self.needs_redraw = true;
        }
    }

    /// A tick of the animation timer: the frame advances while a fetch, a
    /// clone or a removal is in flight, and nothing changes otherwise.
    pub fn tick(&mut self)
        ensures
            final(self)@ == old(self)@.tick(),
    {
        if self.fetching_repos.len() > 0 || self.cloning_repos.len() > 0
            || self.deleting_repos.len() > 0 {
            self.fetch_animation_frame = (self.fetch_animation_frame % 10 + 1) % 10;
            self.needs_redraw = true;
        }
    }

    /// Note that the state was drawn.
    pub fn drawn(&mut self)
        ensures
            final(self)@ == old(self)@.drawn(),
    {
        self.needs_redraw = false;
    }
}

} // verus!
