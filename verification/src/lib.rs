//! Turn the line-oriented machine-readable branch status report of a
//! version-control tool into a structured record, and render that record
//! as a compact one-line summary for a prompt or status bar.
//!
//! The crate is a pure pipeline: [`Status::new`] parses the raw report
//! text into a [`Status`], and [`Status::to_string`] renders a `Status`
//! as the summary line. Neither function performs any I/O.

use vstd::prelude::*;

pub mod laws;
pub mod parse;
pub mod render;
pub mod text;

verus! {

/// An in-progress merge or rebase, reported by the caller rather than
/// parsed from the report text.
#[derive(Debug, PartialEq, Eq, Clone, Copy)]
pub enum MergeState {
    Merge,
    Rebase,
}

/// The single way a report can be rejected: a line with an unknown tag,
/// a header with an unknown key, a missing token, or a report with no
/// branch identity at all.
#[derive(Debug, PartialEq, Eq, Clone, Copy)]
pub enum ParseError {
    MalformedReport,
}

/// The structured summary of one status report.
#[derive(Debug, PartialEq, Eq)]
pub struct Status {
    /// Full hash of the current commit, or the literal `(initial)` when
    /// the repository has no commits yet.
    pub object_id: String,
    /// Current branch name; `None` when the head is detached.
    pub branch_name: Option<String>,
    /// Tracking branch name; `None` when no upstream is configured.
    pub upstream: Option<String>,
    /// Some local commit is not on the upstream branch.
    pub ahead: bool,
    /// Some upstream commit is not on the local branch.
    pub behind: bool,
    /// Some tracked entry has a staged-side change.
    pub staged: bool,
    /// Some tracked entry has a worktree-side change.
    pub unstaged: bool,
    /// Some entry is in a conflicted state.
    pub unmerged: bool,
    /// Some untracked path is present.
    pub untracked: bool,
    /// Some ignored path is present.
    pub ignored: bool,
    /// Set by the caller through [`Status::set_merge_state`], never by
    /// the parser.
    pub merge_state: Option<MergeState>,
}

/// The mathematical value of a [`Status`]: the same fields with every
/// string replaced by its character sequence.
pub struct StatusView {
    pub object_id: Seq<char>,
    pub branch_name: Option<Seq<char>>,
    pub upstream: Option<Seq<char>>,
    pub ahead: bool,
    pub behind: bool,
    pub staged: bool,
    pub unstaged: bool,
    pub unmerged: bool,
    pub untracked: bool,
    pub ignored: bool,
    pub merge_state: Option<MergeState>,
}

impl View for Status {
    type V = StatusView;

    open spec fn view(&self) -> StatusView {
        StatusView {
            object_id: self.object_id@,
            branch_name: match self.branch_name {
                Some(ref s) => Some(s@),
                None => None,
            },
            upstream: match self.upstream {
                Some(ref s) => Some(s@),
                None => None,
            },
            ahead: self.ahead,
            behind: self.behind,
            staged: self.staged,
            unstaged: self.unstaged,
            unmerged: self.unmerged,
            untracked: self.untracked,
            ignored: self.ignored,
            merge_state: self.merge_state,
        }
    }
}

/// True when any of the seven divergence or working-tree flags is set;
/// exactly the condition under which the rendered summary carries a
/// flags segment.
pub open spec fn spec_dirty(st: StatusView) -> bool {
    st.ahead || st.behind || st.staged || st.unstaged || st.unmerged || st.untracked || st.ignored
}

impl Status {
    /// True when any divergence or working-tree flag is set.
    pub fn is_dirty(&self) -> (r: bool)
        ensures
            r == spec_dirty(self@),
    {
        self.ahead || self.behind || self.staged || self.unstaged || self.unmerged
            || self.untracked || self.ignored
    }

    /// Record an in-progress merge or rebase; every other field is kept.
    pub fn set_merge_state(&mut self, m: MergeState)
        ensures
            final(self)@ == (StatusView { merge_state: Some(m), ..old(self)@ }),
    {
        self.merge_state = Some(m);
    }
}

} // verus!
