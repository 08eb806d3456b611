//! The status probe: what the output of the git commands stands for, and
//! the plans for fetching and cloning. Running the commands is left to the
//! program around the library.

use crate::git_repo::{GitRepo, RepoView};
use crate::number::{append_decimal, append_signed, decimal, decimal_nat, parse_i32, parsed_i32};
use crate::text::{
    chars_of, contains, lines, occurs_in, push_char, split_lines, split_words, trim_range,
    trimmed, words,
};
use crate::util::{parent, parent_of};
use vstd::prelude::*;
use vstd::string::StringExecFns;

verus! {

/// Whether the working copy has a remote: `git remote` succeeded and
/// printed something. `None` stands for a command that failed.
pub open spec fn has_remote_of(remotes: Option<Seq<char>>) -> bool {
    match remotes {
        Some(text) => text.len() > 0,
        None => false,
    }
}

/// The two counts that `git rev-list --left-right --count` printed: exactly
/// two words, each a 32-bit integer.
pub open spec fn ahead_behind_of(counts: Seq<char>) -> Option<(int, int)> {
    let w = words(counts);
    if w.len() == 2 && parsed_i32(w[0]) is Some && parsed_i32(w[1]) is Some {
        Some((parsed_i32(w[0]).unwrap(), parsed_i32(w[1]).unwrap()))
    } else {
        None
    }
}

/// The label for the counts of commits ahead and behind: `up-to-date` where
/// both are zero, else an upwards arrow with the first count, a blank, and a
/// downwards arrow with the second.
pub open spec fn ahead_behind_label(ahead: int, behind: int) -> Seq<char> {
    if ahead == 0 && behind == 0 {
        "up-to-date"@
    } else {
        seq!['\u{2191}'] + decimal(ahead) + seq![' ', '\u{2193}'] + decimal(behind)
    }
}

/// The remote status: `local-only` without a remote; else the label of the
/// counts; `no-tracking` where the counts cannot be had. `counts` holds what
/// `git rev-list` printed, `None` where it failed.
pub open spec fn remote_status_of(
    remotes: Option<Seq<char>>,
    counts: Option<Seq<char>>,
) -> Seq<char> {
    if !has_remote_of(remotes) {
        "local-only"@
    } else {
        match counts {
            Some(text) => match ahead_behind_of(text) {
                Some((ahead, behind)) => ahead_behind_label(ahead, behind),
                None => "no-tracking"@,
            },
            None => "no-tracking"@,
        }
    }
}

/// A line of `git status --porcelain` that reports a staged change: the
/// first column is neither blank nor a question mark.
pub open spec fn is_staged_line(line: Seq<char>) -> bool {
    line.len() >= 2 && line[0] != ' ' && line[0] != '?'
}

/// A line of `git status --porcelain` that reports a change in the working
/// tree: the second column is not blank.
pub open spec fn is_unstaged_line(line: Seq<char>) -> bool {
    line.len() >= 2 && line[1] != ' '
}

/// How many of the lines report a staged change.
pub open spec fn staged_count(all: Seq<Seq<char>>) -> nat
    decreases all.len(),
{
    if all.len() == 0 {
        0
    } else {
        staged_count(all.drop_last()) + if is_staged_line(all.last()) {
            1nat
        } else {
            0nat
        }
    }
}

/// How many of the lines report a change in the working tree.
pub open spec fn unstaged_count(all: Seq<Seq<char>>) -> nat
    decreases all.len(),
{
    if all.len() == 0 {
        0
    } else {
        unstaged_count(all.drop_last()) + if is_unstaged_line(all.last()) {
            1nat
        } else {
            0nat
        }
    }
}

/// The compact summary of staged and unstaged changes.
pub open spec fn change_summary(staged: nat, unstaged: nat) -> Seq<char> {
    if staged == 0 && unstaged > 0 {
        decimal_nat(unstaged) + seq!['M']
    } else if staged > 0 && unstaged == 0 {
        decimal_nat(staged) + seq!['S']
    } else if staged > 0 && unstaged > 0 {
        decimal_nat(staged) + seq!['S', ' '] + decimal_nat(unstaged) + seq!['M']
    } else {
        "dirty"@
    }
}

/// The working-tree status: `clean` where `git status --porcelain` printed
/// nothing but white space, else the summary of its lines; `unknown` where
/// the command failed, for which `None` stands.
pub open spec fn status_of(porcelain: Option<Seq<char>>) -> Seq<char> {
    match porcelain {
        None => "unknown"@,
        Some(text) => if trimmed(text).len() == 0 {
            "clean"@
        } else {
            change_summary(staged_count(lines(text)), unstaged_count(lines(text)))
        },
    }
}

/// The steps of a fetch.
#[derive(Debug, Clone, Copy, PartialEq, Eq, Structural)]
pub enum FetchStep {
    /// Run `git fetch --all --prune`.
    FetchAll,
    /// Run `git merge --ff-only @{upstream}`.
    FastForward,
    /// Run `git submodule update --init --recursive`.
    UpdateSubmodules,
    /// The fetch succeeded.
    Finished,
    /// The fetch failed.
    Failed,
}

/// The step that follows `step` after its command succeeded or failed. Only
/// a failure to fetch makes the fetch fail: a fast-forward that fails is
/// skipped, and with it the update of the submodules.
pub open spec fn fetch_step_after(step: FetchStep, update: bool, succeeded: bool) -> FetchStep {
    match step {
        FetchStep::FetchAll => if !succeeded {
            FetchStep::Failed
        } else if update {
            FetchStep::FastForward
        } else {
            FetchStep::Finished
        },
        FetchStep::FastForward => if succeeded {
            FetchStep::UpdateSubmodules
        } else {
            FetchStep::Finished
        },
        FetchStep::UpdateSubmodules => FetchStep::Finished,
        FetchStep::Finished => FetchStep::Finished,
        FetchStep::Failed => FetchStep::Failed,
    }
}

/// Why a clone cannot be made or did not succeed.
#[derive(Debug, Clone, Copy, PartialEq, Eq, Structural)]
pub enum CloneError {
    /// The record is not missing.
    AlreadyExists,
    /// The record remembers no remote URL.
    NoRemoteUrl,
    /// The command reported a failure.
    Failed,
}

/// The program that clones.
#[derive(Debug, Clone, Copy, PartialEq, Eq, Structural)]
pub enum CloneTool {
    /// `gh repo clone`, for a repository on GitHub.
    GitHubCli,
    /// `git clone`.
    Git,
}

/// How to clone a missing working copy.
#[derive(Debug, Clone, PartialEq, Eq)]
pub struct ClonePlan {
    pub tool: CloneTool,
    pub remote_url: String,
    /// The path of the working copy.
    pub destination: String,
    /// The directory to create first, if the path has a parent.
    pub parent: Option<String>,
}

/// What a clone plan holds.
pub struct ClonePlanView {
    pub tool: CloneTool,
    pub remote_url: Seq<char>,
    pub destination: Seq<char>,
    pub parent: Option<Seq<char>>,
}

impl View for ClonePlan {
    type V = ClonePlanView;

    open spec fn view(&self) -> ClonePlanView {
        ClonePlanView {
            tool: self.tool,
            remote_url: self.remote_url@,
            destination: self.destination@,
            parent: self.parent.deep_view(),
        }
    }
}

impl DeepView for ClonePlan {
    type V = ClonePlanView;

    open spec fn deep_view(&self) -> ClonePlanView {
        self@
    }
}

/// The tool for a remote URL: the GitHub CLI where the URL names
/// `github.com`.
pub open spec fn clone_tool_for(remote_url: Seq<char>) -> CloneTool {
    if occurs_in(remote_url, "github.com"@) {
        CloneTool::GitHubCli
    } else {
        CloneTool::Git
    }
}

/// The plan to clone the record `r`, or why there is none.
pub open spec fn clone_plan_of(r: RepoView) -> Result<ClonePlanView, CloneError> {
    if !r.missing {
        Err(CloneError::AlreadyExists)
    } else {
        match r.remote_url {
            None => Err(CloneError::NoRemoteUrl),
            Some(url) => Ok(
                ClonePlanView {
                    tool: clone_tool_for(url),
                    remote_url: url,
                    destination: r.path,
                    parent: parent_of(r.path),
                },
            ),
        }
    }
}

impl CloneError {
    /// The message for the error.
    pub fn message(&self) -> (r: &'static str)
        ensures
            r@ == match self {
                CloneError::AlreadyExists => "Repository already exists"@,
                CloneError::NoRemoteUrl => "No remote URL for repository"@,
                CloneError::Failed => "Failed to clone repository"@,
            },
    {
        match self {
            CloneError::AlreadyExists => "Repository already exists",
            CloneError::NoRemoteUrl => "No remote URL for repository",
            CloneError::Failed => "Failed to clone repository",
        }
    }
}

impl ClonePlan {
    /// The name of the program to run.
    pub fn program(&self) -> (r: &'static str)
        ensures
            r@ == match self@.tool {
                CloneTool::GitHubCli => "gh"@,
                CloneTool::Git => "git"@,
            },
    {
        match self.tool {
            CloneTool::GitHubCli => "gh",
            CloneTool::Git => "git",
        }
    }

    /// The arguments to run the program with.
    pub fn arguments(&self) -> (r: Vec<String>)
        ensures
            r.deep_view() == match self@.tool {
                CloneTool::GitHubCli => seq![
                    "repo"@,
                    "clone"@,
                    self@.remote_url,
                    self@.destination,
                ],
                CloneTool::Git => seq!["clone"@, self@.remote_url, self@.destination],
            },
    {
        let mut out: Vec<String> = Vec::new();
        match self.tool {
            CloneTool::GitHubCli => {
                out.push("repo".to_owned());
            },
            CloneTool::Git => {},
        }
        out.push("clone".to_owned());
        out.push(self.remote_url.clone());
        out.push(self.destination.clone());
        assert(out.deep_view() =~= match self@.tool {
            CloneTool::GitHubCli => seq!["repo"@, "clone"@, self@.remote_url, self@.destination],
            CloneTool::Git => seq!["clone"@, self@.remote_url, self@.destination],
        });
        out
    }
}

impl GitRepo {
    /// Whether the working copy has a remote, from what `git remote`
    /// printed; `None` stands for a command that failed.
    pub fn has_remote(remotes: Option<&str>) -> (r: bool)
        ensures
            r == has_remote_of(remotes.deep_view()),
    {
        match remotes {
            Some(text) => !text.is_empty(),
            None => false,
        }
    }

    /// Read the remote tracking status (ahead/behind) from what `git remote`
    /// and `git rev-list --left-right --count HEAD...@{upstream}` printed;
    /// `None` stands for a command that failed. The counts are not looked at
    /// where there is no remote.
    pub fn read_remote_status(remotes: Option<&str>, counts: Option<&str>) -> (r: String)
        ensures
            r@ == remote_status_of(remotes.deep_view(), counts.deep_view()),
    {
        if !GitRepo::has_remote(remotes) {
            return String::from_str("local-only");
        }
        let text = match counts {
            Some(text) => text,
            None => {
                return String::from_str("no-tracking");
            },
        };
        let parts = split_words(&chars_of(text));
        if parts.len() != 2 {
            return String::from_str("no-tracking");
        }
        assert(parts.deep_view()[0] == parts@[0]@ && parts.deep_view()[1] == parts@[1]@);
        match (parse_i32(&parts[0]), parse_i32(&parts[1])) {
            (Some(ahead), Some(behind)) => {
                if ahead == 0 && behind == 0 {
                    String::from_str("up-to-date")
                } else {
                    let mut s = String::new();
                    push_char(&mut s, '\u{2191}');
                    append_signed(&mut s, ahead);
                    push_char(&mut s, ' ');
                    push_char(&mut s, '\u{2193}');
                    append_signed(&mut s, behind);
                    assert(s@ =~= ahead_behind_label(ahead as int, behind as int));
                    s
                }
            },
            _ => String::from_str("no-tracking"),
        }
    }

    /// Read the working tree status (clean/dirty) from what
    /// `git status --porcelain` printed; `None` stands for a command that
    /// failed.
    pub fn read_status(porcelain: Option<&str>) -> (r: String)
        ensures
            r@ == status_of(porcelain.deep_view()),
    {
        let text = match porcelain {
            Some(text) => text,
            None => {
                return String::from_str("unknown");
            },
        };
        let v = chars_of(text);
        let (a, b) = trim_range(&v, 0, v.len());
        assert(v@.subrange(0, v.len() as int) == v@);
        if a == b {
            return String::from_str("clean");
        }
        let all = split_lines(&v);
        let mut staged: usize = 0;
        let mut unstaged: usize = 0;
        let mut i: usize = 0;
        assert(all.deep_view().take(0) == Seq::<Seq<char>>::empty());
        while i < all.len()
            invariant
                i <= all.len(),
                staged <= i,
                unstaged <= i,
                staged == staged_count(all.deep_view().take(i as int)),
                unstaged == unstaged_count(all.deep_view().take(i as int)),
            decreases all.len() - i,
        {
            let line = &all[i];
            proof {
                let upto = all.deep_view().take(i + 1);
                assert(upto.drop_last() == all.deep_view().take(i as int));
                assert(upto.last() =~= line@);
            }
            if line.len() >= 2 {
                if line[0] != ' ' && line[0] != '?' {
                    staged += 1;
                }
                if line[1] != ' ' {
                    unstaged += 1;
                }
            }
            i += 1;
        }
        assert(all.deep_view().take(all.len() as int) == all.deep_view());
        let mut s = String::new();
        if staged == 0 && unstaged > 0 {
            append_decimal(&mut s, unstaged as u64);
            push_char(&mut s, 'M');
            assert(s@ =~= change_summary(staged as nat, unstaged as nat));
            s
        } else if staged > 0 && unstaged == 0 {
            append_decimal(&mut s, staged as u64);
            push_char(&mut s, 'S');
            assert(s@ =~= change_summary(staged as nat, unstaged as nat));
            s
        } else if staged > 0 && unstaged > 0 {
            append_decimal(&mut s, staged as u64);
            push_char(&mut s, 'S');
            push_char(&mut s, ' ');
            append_decimal(&mut s, unstaged as u64);
            push_char(&mut s, 'M');
            assert(s@ =~= change_summary(staged as nat, unstaged as nat));
            s
        } else {
            String::from_str("dirty")
        }
    }

    /// Fetch from all remotes and optionally fast-forward if possible: the
    /// step that follows `step`, whose command succeeded or failed. A fetch
    /// begins with `FetchStep::FetchAll` and ends with `Finished` or `Failed`.
    pub fn fetch(step: FetchStep, update: bool, succeeded: bool) -> (r: FetchStep)
        ensures
            r == fetch_step_after(step, update, succeeded),
    {
        match step {
            FetchStep::FetchAll => if !succeeded {
                FetchStep::Failed
            } else if update {
                FetchStep::FastForward
            } else {
                FetchStep::Finished
            },
            FetchStep::FastForward => if succeeded {
                FetchStep::UpdateSubmodules
            } else {
                FetchStep::Finished
            },
            FetchStep::UpdateSubmodules => FetchStep::Finished,
            FetchStep::Finished => FetchStep::Finished,
            FetchStep::Failed => FetchStep::Failed,
        }
    }

    /// The message for a fetch that failed, from what the command wrote to
    /// its error stream.
    pub fn fetch_error(stderr: &str) -> (r: String)
        ensures
            r@ == "git fetch failed: "@ + stderr@,
    {
        let mut s = String::from_str("git fetch failed: ");
        s.append(stderr);
        s
    }

    /// Clone this repository to its expected path: the plan for it. Only a
    /// missing record with a remote URL can be cloned.
    pub fn clone_repository(&self) -> (r: Result<ClonePlan, CloneError>)
        ensures
            match r {
                Ok(plan) => clone_plan_of(self@) == Ok::<ClonePlanView, CloneError>(plan@),
                Err(e) => clone_plan_of(self@) == Err::<ClonePlanView, CloneError>(e),
            },
    {
        if !self.is_missing() {
            return Err(CloneError::AlreadyExists);
        }
        let url = match self.cached_remote_url() {
            Some(url) => url,
            None => {
                return Err(CloneError::NoRemoteUrl);
            },
        };
        let tool = if contains(&chars_of(url), &chars_of("github.com")) {
            CloneTool::GitHubCli
        } else {
            CloneTool::Git
        };
        let parent = match parent(self.path()) {
            Some(p) => Some(p.to_owned()),
            None => None,
        };
        Ok(
            ClonePlan {
                tool,
                remote_url: url.to_owned(),
                destination: self.path().to_owned(),
                parent,
            },
        )
    }

    /// What the clone came to, from whether the command succeeded.
    pub fn clone_result(succeeded: bool) -> (r: Result<(), CloneError>)
        ensures
            r == if succeeded {
                Ok::<(), CloneError>(())
            } else {
                Err::<(), CloneError>(CloneError::Failed)
            },
    {
        if succeeded {
            Ok(())
        } else {
            Err(CloneError::Failed)
        }
    }
}

} // verus!
