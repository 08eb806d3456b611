//! Background units: the rules by which one unit of work probes, fetches,
//! clones or removes a working copy and reports to the controller.
//!
//! A unit is a state machine. Its state says which command it waits for; the
//! program around the library runs the command and hands the outcome back,
//! and the unit answers with the reports to send, in order.

use crate::event::{GitDataUpdate, UpdateView};
use crate::text::same_text;
use vstd::prelude::*;

verus! {

/// The label that stands for a probe that did not return.
pub open spec fn error_label() -> Seq<char> {
    "error"@
}

/// The remote status of a working copy without a remote.
pub open spec fn local_only_label() -> Seq<char> {
    "local-only"@
}

/// The label for what a probe returned; `error` where it did not return.
pub open spec fn label_of(outcome: Option<Seq<char>>) -> Seq<char> {
    match outcome {
        Some(text) => text,
        None => error_label(),
    }
}

/// Whether a probe unit fetches: fetching is enabled, and the remote status
/// is neither `local-only` nor `error`.
pub open spec fn wants_fetch(fetch: bool, remote_status: Seq<char>) -> bool {
    fetch && remote_status != local_only_label() && remote_status != error_label()
}

/// What a unit waits for.
pub enum StateView {
    /// A probe unit waits for the remote status.
    ProbeRemote { fetch: bool, update: bool },
    /// A probe unit waits for the working-tree status.
    ProbeStatus { fetch: bool, update: bool, remote_status: Seq<char> },
    /// A probe unit waits for the fetch.
    Fetching { update: bool },
    /// A probe unit waits for the remote status after the fetch.
    Refreshing,
    /// A clone unit waits for the clone.
    Cloning,
    /// A delete unit waits for the remote URL of the working copy.
    ReadingOrigin,
    /// A delete unit waits for the removal of the directory.
    Removing { remote_url: Option<Seq<char>> },
    /// The unit has nothing left to do.
    Finished,
}

/// The command that a unit asks for.
#[derive(Debug, Clone, Copy, PartialEq, Eq, Structural)]
pub enum UnitCommand {
    /// Read the remote status; answer with `UnitInput::RemoteStatus`.
    ReadRemoteStatus,
    /// Read the working-tree status; answer with `UnitInput::Status`.
    ReadStatus,
    /// Fetch from all remotes, and fast-forward where `update` is set; answer
    /// with `UnitInput::Fetched`.
    Fetch { update: bool },
    /// Clone the working copy; answer with `UnitInput::Cloned`.
    Clone,
    /// Read the remote URL; answer with `UnitInput::Origin`.
    ReadOrigin,
    /// Remove the directory tree; answer with `UnitInput::Removed`.
    RemoveDirectory,
    /// End the unit.
    Stop,
}

/// The outcome of a command.
#[derive(Debug, Clone, PartialEq, Eq)]
pub enum UnitInput {
    /// The remote status; `None` where the probe did not return.
    RemoteStatus(Option<String>),
    /// The working-tree status; `None` where the probe did not return.
    Status(Option<String>),
    /// Whether the fetch succeeded.
    Fetched(bool),
    /// Whether the clone succeeded.
    Cloned(bool),
    /// The remote URL, if the working copy has one.
    Origin(Option<String>),
    /// The removal ended, however it went.
    Removed,
}

/// What an outcome holds.
pub enum InputView {
    RemoteStatus(Option<Seq<char>>),
    Status(Option<Seq<char>>),
    Fetched(bool),
    Cloned(bool),
    Origin(Option<Seq<char>>),
    Removed,
}

impl View for UnitInput {
    type V = InputView;

    open spec fn view(&self) -> InputView {
        match self {
            UnitInput::RemoteStatus(s) => InputView::RemoteStatus(s.deep_view()),
            UnitInput::Status(s) => InputView::Status(s.deep_view()),
            UnitInput::Fetched(ok) => InputView::Fetched(*ok),
            UnitInput::Cloned(ok) => InputView::Cloned(*ok),
            UnitInput::Origin(url) => InputView::Origin(url.deep_view()),
            UnitInput::Removed => InputView::Removed,
        }
    }
}

/// What a unit holds.
pub struct UnitView {
    /// The index that the record had when the unit was scheduled; every report
    /// carries it.
    pub index: usize,
    pub state: StateView,
}

impl UnitView {
    /// A probe unit at its start.
    pub open spec fn probe(index: usize, fetch: bool, update: bool) -> UnitView {
        UnitView { index, state: StateView::ProbeRemote { fetch, update } }
    }

    /// A clone unit after its first report.
    pub open spec fn cloning(index: usize) -> UnitView {
        UnitView { index, state: StateView::Cloning }
    }

    /// A delete unit at its start.
    pub open spec fn deleting(index: usize) -> UnitView {
        UnitView { index, state: StateView::ReadingOrigin }
    }

    /// The command that the unit waits for.
    pub open spec fn command(self) -> UnitCommand {
        match self.state {
            StateView::ProbeRemote { .. } => UnitCommand::ReadRemoteStatus,
            StateView::ProbeStatus { .. } => UnitCommand::ReadStatus,
            StateView::Fetching { update } => UnitCommand::Fetch { update },
            StateView::Refreshing => UnitCommand::ReadRemoteStatus,
            StateView::Cloning => UnitCommand::Clone,
            StateView::ReadingOrigin => UnitCommand::ReadOrigin,
            StateView::Removing { .. } => UnitCommand::RemoveDirectory,
            StateView::Finished => UnitCommand::Stop,
        }
    }

    /// The unit after the outcome `input`, and the reports to send, in
    /// order. An outcome that the unit does not wait for changes nothing.
    pub open spec fn advance(self, input: InputView) -> (UnitView, Seq<UpdateView>) {
        let i = self.index;
        match (self.state, input) {
            (StateView::ProbeRemote { fetch, update }, InputView::RemoteStatus(outcome)) => (
                UnitView {
                    state: StateView::ProbeStatus { fetch, update, remote_status: label_of(outcome) },
                    ..self
                },
                seq![UpdateView::RemoteStatus(i, label_of(outcome))],
            ),
            (StateView::ProbeStatus { fetch, update, remote_status }, InputView::Status(outcome)) => {
                if wants_fetch(fetch, remote_status) {
                    (
                        UnitView { state: StateView::Fetching { update }, ..self },
                        seq![
                            UpdateView::Status(i, label_of(outcome)),
                            UpdateView::FetchProgress(i),
                        ],
                    )
                } else {
                    (
                        UnitView { state: StateView::Finished, ..self },
                        seq![UpdateView::Status(i, label_of(outcome))],
                    )
                }
            },
            (StateView::Fetching { .. }, InputView::Fetched(ok)) => if ok {
                (UnitView { state: StateView::Refreshing, ..self }, Seq::empty())
            } else {
                (UnitView { state: StateView::Finished, ..self }, seq![UpdateView::FetchComplete(i)])
            },
            (StateView::Refreshing, InputView::RemoteStatus(outcome)) => (
                UnitView { state: StateView::Finished, ..self },
                seq![
                    UpdateView::RemoteStatus(i, label_of(outcome)),
                    UpdateView::FetchComplete(i),
                ],
            ),
            (StateView::Cloning, InputView::Cloned(_)) => (
                UnitView { state: StateView::Finished, ..self },
                seq![UpdateView::CloneComplete(i)],
            ),
            (StateView::ReadingOrigin, InputView::Origin(url)) => (
                UnitView { state: StateView::Removing { remote_url: url }, ..self },
                seq![UpdateView::DeleteProgress(i)],
            ),
            (StateView::Removing { remote_url }, InputView::Removed) => (
                UnitView { state: StateView::Finished, ..self },
                seq![UpdateView::DeleteComplete(i, remote_url)],
            ),
            _ => (self, Seq::empty()),
        }
    }
}

/// A unit keeps its index, and every report that it answers with carries
/// it: a unit speaks of no record but its own.
pub proof fn lemma_reports_carry_index(unit: UnitView, input: InputView, k: int)
    requires
        0 <= k < unit.advance(input).1.len(),
    ensures
        unit.advance(input).0.index == unit.index,
        unit.advance(input).1[k].index() == unit.index,
{
}

/// A unit that has finished stays finished and says nothing more.
pub proof fn lemma_finished_unit_is_silent(unit: UnitView, input: InputView)
    requires
        unit.state is Finished,
    ensures
        unit.advance(input) == (unit, Seq::<UpdateView>::empty()),
        unit.command() == UnitCommand::Stop,
{
}

/// The state of a unit.
#[derive(Debug)]
enum UnitState {
    ProbeRemote { fetch: bool, update: bool },
    ProbeStatus { fetch: bool, update: bool, remote_status: String },
    Fetching { update: bool },
    Refreshing,
    Cloning,
    ReadingOrigin,
    Removing { remote_url: Option<String> },
    Finished,
}

impl View for UnitState {
    type V = StateView;

    closed spec fn view(&self) -> StateView {
        match self {
            UnitState::ProbeRemote { fetch, update } => StateView::ProbeRemote {
                fetch: *fetch,
                update: *update,
            },
            UnitState::ProbeStatus { fetch, update, remote_status } => StateView::ProbeStatus {
                fetch: *fetch,
                update: *update,
                remote_status: remote_status@,
            },
            UnitState::Fetching { update } => StateView::Fetching { update: *update },
            UnitState::Refreshing => StateView::Refreshing,
            UnitState::Cloning => StateView::Cloning,
            UnitState::ReadingOrigin => StateView::ReadingOrigin,
            UnitState::Removing { remote_url } => StateView::Removing {
                remote_url: remote_url.deep_view(),
            },
            UnitState::Finished => StateView::Finished,
        }
    }
}

/// One background unit of work for one record.
#[derive(Debug)]
pub struct Unit {
    index: usize,
    state: UnitState,
}

impl View for Unit {
    type V = UnitView;

    closed spec fn view(&self) -> UnitView {
        UnitView { index: self.index, state: self.state@ }
    }
}

/// The text that stands for the outcome of a probe: `error` where the probe
/// did not return.
pub fn label(outcome: Option<String>) -> (r: String)
    ensures
        r@ == label_of(outcome.deep_view()),
{
    match outcome {
        Some(text) => text,
        None => "error".to_owned(),
    }
}

/// Whether a probe unit fetches after it read the remote status
/// `remote_status`.
pub fn should_fetch(fetch: bool, remote_status: &str) -> (r: bool)
    ensures
        r == wants_fetch(fetch, remote_status@),
{
    fetch && !same_text(remote_status, "local-only") && !same_text(remote_status, "error")
}

impl Unit {
    /// A probe unit for the record at `index`: it reads both statuses and
    /// reports each, and fetches where `fetch` is set and the working copy has a
    /// remote.
    pub fn probe(index: usize, fetch: bool, update: bool) -> (r: Unit)
        ensures
            r@ == UnitView::probe(index, fetch, update),
    {
        Unit { index, state: UnitState::ProbeRemote { fetch, update } }
    }

    /// A clone unit for the record at `index`, and its first report, which is
    /// sent before the clone begins.
    pub fn clone_repo(index: usize) -> (r: (Unit, GitDataUpdate))
        ensures
            r.0@ == UnitView::cloning(index),
            r.1@ == UpdateView::CloneProgress(index),
    {
        (Unit { index, state: UnitState::Cloning }, GitDataUpdate::CloneProgress(index))
    }

    /// A delete unit for the record at `index`: it reads the remote URL
    /// before it removes anything.
    pub fn delete(index: usize) -> (r: Unit)
        ensures
            r@ == UnitView::deleting(index),
    {
        Unit { index, state: UnitState::ReadingOrigin }
    }

    /// The index that the unit reports under.
    pub fn index(&self) -> (r: usize)
        ensures
            r == self@.index,
    {
        self.index
    }

    /// The command that the unit waits for.
    pub fn command(&self) -> (r: UnitCommand)
        ensures
            r == self@.command(),
    {
        match &self.state {
            UnitState::ProbeRemote { .. } => UnitCommand::ReadRemoteStatus,
            UnitState::ProbeStatus { .. } => UnitCommand::ReadStatus,
            UnitState::Fetching { update } => UnitCommand::Fetch { update: *update },
            UnitState::Refreshing => UnitCommand::ReadRemoteStatus,
            UnitState::Cloning => UnitCommand::Clone,
            UnitState::ReadingOrigin => UnitCommand::ReadOrigin,
            UnitState::Removing { .. } => UnitCommand::RemoveDirectory,
            UnitState::Finished => UnitCommand::Stop,
        }
    }

    /// Take the outcome of the command that the unit waited for; returns the
    /// reports to send, in order.
    pub fn advance(&mut self, input: UnitInput) -> (reports: Vec<GitDataUpdate>)
        ensures
            (final(self)@, reports.deep_view()) == old(self)@.advance(input@),
    {
        let i = self.index;
        let mut reports: Vec<GitDataUpdate> = Vec::new();
        let mut state = UnitState::Finished;
        std::mem::swap(&mut self.state, &mut state);
        let next = match (state, input) {
            (UnitState::ProbeRemote { fetch, update }, UnitInput::RemoteStatus(outcome)) => {
                let text = label(outcome);
                reports.push(GitDataUpdate::RemoteStatus(i, text.clone()));
                UnitState::ProbeStatus { fetch, update, remote_status: text }
            },
            (UnitState::ProbeStatus { fetch, update, remote_status }, UnitInput::Status(outcome)) => {
                reports.push(GitDataUpdate::Status(i, label(outcome)));
                if should_fetch(fetch, remote_status.as_str()) {
                    reports.push(GitDataUpdate::FetchProgress(i));
                    UnitState::Fetching { update }
                } else {
                    UnitState::Finished
                }
            },
            (UnitState::Fetching { update }, UnitInput::Fetched(ok)) => {
                if ok {
                    UnitState::Refreshing
                } else {
                    reports.push(GitDataUpdate::FetchComplete(i));
                    UnitState::Finished
                }
            },
            (UnitState::Refreshing, UnitInput::RemoteStatus(outcome)) => {
                reports.push(GitDataUpdate::RemoteStatus(i, label(outcome)));
                reports.push(GitDataUpdate::FetchComplete(i));
                UnitState::Finished
            },
            (UnitState::Cloning, UnitInput::Cloned(_)) => {
                reports.push(GitDataUpdate::CloneComplete(i));
                UnitState::Finished
            },
            (UnitState::ReadingOrigin, UnitInput::Origin(url)) => {
                reports.push(GitDataUpdate::DeleteProgress(i));
                UnitState::Removing { remote_url: url }
            },
            (UnitState::Removing { remote_url }, UnitInput::Removed) => {
                reports.push(GitDataUpdate::DeleteComplete(i, remote_url));
                UnitState::Finished
            },
            (state, _) => state,
        };
        self.state = next;
        assert(reports.deep_view() =~= old(self)@.advance(input@).1);
        reports
    }
}

} // verus!
