//! The messages that reach the view controller: key presses and the reports
//! of background units.

use vstd::prelude::*;

verus! {

/// A report of a background unit. Each carries the index that its record had
/// when the unit was scheduled.
#[derive(Debug, Clone, PartialEq, Eq)]
pub enum GitDataUpdate {
    RemoteStatus(usize, String),
    Status(usize, String),
    FetchProgress(usize),
    FetchComplete(usize),
    CloneProgress(usize),
    CloneComplete(usize),
    DeleteProgress(usize),
    /// Carries the remote URL that was read before the working copy was
    /// removed.
    DeleteComplete(usize, Option<String>),
}

/// What a report holds.
pub enum UpdateView {
    RemoteStatus(usize, Seq<char>),
    Status(usize, Seq<char>),
    FetchProgress(usize),
    FetchComplete(usize),
    CloneProgress(usize),
    CloneComplete(usize),
    DeleteProgress(usize),
    DeleteComplete(usize, Option<Seq<char>>),
}

impl View for GitDataUpdate {
    type V = UpdateView;

    open spec fn view(&self) -> UpdateView {
        match self {
            GitDataUpdate::RemoteStatus(i, s) => UpdateView::RemoteStatus(*i, s@),
            GitDataUpdate::Status(i, s) => UpdateView::Status(*i, s@),
            GitDataUpdate::FetchProgress(i) => UpdateView::FetchProgress(*i),
            GitDataUpdate::FetchComplete(i) => UpdateView::FetchComplete(*i),
            GitDataUpdate::CloneProgress(i) => UpdateView::CloneProgress(*i),
            GitDataUpdate::CloneComplete(i) => UpdateView::CloneComplete(*i),
            GitDataUpdate::DeleteProgress(i) => UpdateView::DeleteProgress(*i),
            GitDataUpdate::DeleteComplete(i, url) => UpdateView::DeleteComplete(
                *i,
                url.deep_view(),
            ),
        }
    }
}

impl DeepView for GitDataUpdate {
    type V = UpdateView;

    open spec fn deep_view(&self) -> UpdateView {
        self@
    }
}

impl UpdateView {
    /// The index that the report was scheduled against.
    pub open spec fn index(self) -> usize {
        match self {
            UpdateView::RemoteStatus(i, _) => i,
            UpdateView::Status(i, _) => i,
            UpdateView::FetchProgress(i) => i,
            UpdateView::FetchComplete(i) => i,
            UpdateView::CloneProgress(i) => i,
            UpdateView::CloneComplete(i) => i,
            UpdateView::DeleteProgress(i) => i,
            UpdateView::DeleteComplete(i, _) => i,
        }
    }
}

impl GitDataUpdate {
    /// The index that the report was scheduled against.
    pub fn index(&self) -> (r: usize)
        ensures
            r == self@.index(),
    {
        match self {
            GitDataUpdate::RemoteStatus(i, _) => *i,
            GitDataUpdate::Status(i, _) => *i,
            GitDataUpdate::FetchProgress(i) => *i,
            GitDataUpdate::FetchComplete(i) => *i,
            GitDataUpdate::CloneProgress(i) => *i,
            GitDataUpdate::CloneComplete(i) => *i,
            GitDataUpdate::DeleteProgress(i) => *i,
            GitDataUpdate::DeleteComplete(i, _) => *i,
        }
    }
}

/// The keys that the controller tells apart.
#[derive(Debug, Clone, Copy, PartialEq, Eq, Structural)]
pub enum KeyCode {
    Char(char),
    Enter,
    Esc,
    Backspace,
    Up,
    Down,
    /// Any other key.
    Other,
}

/// The modifier keys that the controller reads.
#[derive(Debug, Clone, Copy, PartialEq, Eq, Structural)]
pub struct KeyModifiers {
    pub control: bool,
}

/// Terminal event types.
#[derive(Debug, Clone, PartialEq, Eq)]
pub enum TerminalEvent {
    Key(KeyCode, KeyModifiers),
    GitUpdate(GitDataUpdate),
}

/// What a terminal event holds.
pub enum EventView {
    Key(KeyCode, KeyModifiers),
    GitUpdate(UpdateView),
}

impl View for TerminalEvent {
    type V = EventView;

    open spec fn view(&self) -> EventView {
        match self {
            TerminalEvent::Key(code, modifiers) => EventView::Key(*code, *modifiers),
            TerminalEvent::GitUpdate(update) => EventView::GitUpdate(update@),
        }
    }
}

impl DeepView for TerminalEvent {
    type V = EventView;

    open spec fn deep_view(&self) -> EventView {
        self@
    }
}

impl TerminalEvent {
    /// The event for a key event of the terminal: only key presses reach the
    /// controller, releases and repeats are dropped.
    pub fn from_key(press: bool, code: KeyCode, modifiers: KeyModifiers) -> (r: Option<
        TerminalEvent,
    >)
        ensures
            r.deep_view() == if press {
                Some(EventView::Key(code, modifiers))
            } else {
                None
            },
    {
        if press {
            Some(TerminalEvent::Key(code, modifiers))
        } else {
            None
        }
    }
}

} // verus!
