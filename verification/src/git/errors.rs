//! Git errors in words.

use vstd::prelude::*;

use crate::git::{
    GitExplainError, GitExplainErrorView, GitHistoryError, GitHistoryErrorView,
};
use crate::numbers;

verus! {

/// What Git history is read for.
#[derive(Debug, Clone, Copy, PartialEq, Eq, Structural)]
pub enum GitHistoryUsage {
    ExplainGit,
    Report,
    ExplainHotspot,
    Hotspots,
    Diff,
}

impl GitHistoryUsage {
    /// The command that needs the history.
    pub open spec fn command_name(self) -> Seq<char> {
        match self {
            GitHistoryUsage::ExplainGit => "explain-git"@,
            GitHistoryUsage::Report => "report"@,
            GitHistoryUsage::ExplainHotspot => "explain"@,
            GitHistoryUsage::Hotspots => "hotspots"@,
            GitHistoryUsage::Diff => "diff"@,
        }
    }

    /// The command that needs the history.
    pub fn command(self) -> (out: &'static str)
        ensures
            out@ == self.command_name(),
    {
        match self {
            GitHistoryUsage::ExplainGit => "explain-git",
            GitHistoryUsage::Report => "report",
            GitHistoryUsage::ExplainHotspot => "explain",
            GitHistoryUsage::Hotspots => "hotspots",
            GitHistoryUsage::Diff => "diff",
        }
    }

    /// What the command needs a first commit for.
    pub open spec fn head_action(self) -> Seq<char> {
        match self {
            GitHistoryUsage::ExplainGit => "analyzing history"@,
            GitHistoryUsage::Report => "generating a report"@,
            GitHistoryUsage::ExplainHotspot => "explaining hotspot scores"@,
            GitHistoryUsage::Hotspots => "analyzing hotspots"@,
            GitHistoryUsage::Diff => "analyzing a diff"@,
        }
    }

    /// What the command needs a first commit for.
    pub fn missing_head_action(self) -> (out: &'static str)
        ensures
            out@ == self.head_action(),
    {
        match self {
            GitHistoryUsage::ExplainGit => "analyzing history",
            GitHistoryUsage::Report => "generating a report",
            GitHistoryUsage::ExplainHotspot => "explaining hotspot scores",
            GitHistoryUsage::Hotspots => "analyzing hotspots",
            GitHistoryUsage::Diff => "analyzing a diff",
        }
    }

    /// What the command needs a worktree for.
    pub open spec fn subject(self) -> Seq<char> {
        match self {
            GitHistoryUsage::ExplainGit => "Git analysis"@,
            GitHistoryUsage::Report => "report generation"@,
            GitHistoryUsage::ExplainHotspot => "hotspot score explanation"@,
            GitHistoryUsage::Hotspots => "hotspot analysis"@,
            GitHistoryUsage::Diff => "diff analysis"@,
        }
    }

    /// What the command needs a worktree for.
    pub fn worktree_subject(self) -> (out: &'static str)
        ensures
            out@ == self.subject(),
    {
        match self {
            GitHistoryUsage::ExplainGit => "Git analysis",
            GitHistoryUsage::Report => "report generation",
            GitHistoryUsage::ExplainHotspot => "hotspot score explanation",
            GitHistoryUsage::Hotspots => "hotspot analysis",
            GitHistoryUsage::Diff => "diff analysis",
        }
    }
}

/// An exit status in words.
pub open spec fn status_words(status: Option<i32>) -> Seq<char> {
    match status {
        Some(status) => numbers::signed_decimal(status as int),
        None => "unknown"@,
    }
}

fn push_status(out: &mut String, status: Option<i32>)
    ensures
        final(out)@ == old(out)@ + status_words(status),
{
    match status {
        Some(status) => {
            numbers::push_signed_decimal(out, status as i64);
        },
        None => {
            out.append("unknown");
        },
    }
}

/// A history error in words, for what the history was read for.
pub open spec fn history_error_words(error: GitHistoryErrorView, usage: GitHistoryUsage) -> Seq<
    char,
> {
    match error {
        GitHistoryErrorView::NotRepository { .. } => "path is not a readable Git worktree; run "@ + usage.command_name() + " from inside a repository with local history"@,
        GitHistoryErrorView::OpenRepository { .. } => "failed to open Git repository from the current worktree; ensure local Git metadata is readable"@,
        GitHistoryErrorView::MissingHead { .. } => "Git repository does not have a commit at HEAD; create an initial commit before "@ + usage.head_action(),
        GitHistoryErrorView::ShallowRepository { .. } => "Git repository has shallow history; fetch complete local history before running "@ + usage.command_name() + " so metrics are not based on incomplete commits"@,
        GitHistoryErrorView::BareRepository { .. } => "Git repository has no worktree; "@ + usage.subject() + " requires a local worktree"@,
        GitHistoryErrorView::HeadNotCommit { source, .. } => "Git HEAD does not resolve to a commit: "@ + source,
        GitHistoryErrorView::Git { context, source } => "failed to traverse Git history while "@ + context + ": "@ + source,
        GitHistoryErrorView::GitCommandSpawn { context, source } => "failed to run Git while "@ + context + ": "@ + source + "; ensure the git executable is available on PATH"@,
        GitHistoryErrorView::GitCommandFailed { context, status, stderr } => "Git command failed while "@ + context + " with status "@ + status_words(status) + ": "@ + stderr,
        GitHistoryErrorView::MalformedGitStream { context, detail } => "failed to parse Git history while "@ + context + ": "@ + detail,
        GitHistoryErrorView::UnsupportedAuthorIdentity { commit_id } => "commit "@ + commit_id + " has an author name or email that is not valid UTF-8"@,
        GitHistoryErrorView::UnsupportedPathEncoding { commit_id } => "commit "@ + commit_id + " changed a path that is not valid UTF-8"@,
        GitHistoryErrorView::WorkerFailed { context } => "failed to traverse Git history while "@ + context,
    }
}

/// A history error in words, for what the history was read for.
pub fn git_history_error_message(error: &GitHistoryError, usage: GitHistoryUsage) -> (out: String)
    ensures
        out@ == history_error_words(error.deep_view(), usage),
{
    match error {
        GitHistoryError::NotRepository { .. } => {
            let mut out = "path is not a readable Git worktree; run ".to_owned();
            out.append(usage.command());
            out.append(" from inside a repository with local history");
            out
        },
        GitHistoryError::OpenRepository { .. } => {
            let mut out = "failed to open Git repository from the current worktree; ensure local Git metadata is readable".to_owned();
            out
        },
        GitHistoryError::MissingHead { .. } => {
            let mut out = "Git repository does not have a commit at HEAD; create an initial commit before ".to_owned();
            out.append(usage.missing_head_action());
            out
        },
        GitHistoryError::ShallowRepository { .. } => {
            let mut out = "Git repository has shallow history; fetch complete local history before running ".to_owned();
            out.append(usage.command());
            out.append(" so metrics are not based on incomplete commits");
            out
        },
        GitHistoryError::BareRepository { .. } => {
            let mut out = "Git repository has no worktree; ".to_owned();
            out.append(usage.worktree_subject());
            out.append(" requires a local worktree");
            out
        },
        GitHistoryError::HeadNotCommit { source, .. } => {
            let mut out = "Git HEAD does not resolve to a commit: ".to_owned();
            out.append(source.as_str());
            out
        },
        GitHistoryError::Git { context, source } => {
            let mut out = "failed to traverse Git history while ".to_owned();
            out.append(*context);
            out.append(": ");
            out.append(source.as_str());
            out
        },
        GitHistoryError::GitCommandSpawn { context, source } => {
            let mut out = "failed to run Git while ".to_owned();
            out.append(*context);
            out.append(": ");
            out.append(source.as_str());
            out.append("; ensure the git executable is available on PATH");
            out
        },
        GitHistoryError::GitCommandFailed { context, status, stderr } => {
            let mut out = "Git command failed while ".to_owned();
            out.append(*context);
            out.append(" with status ");
            push_status(&mut out, *status);
            out.append(": ");
            out.append(stderr.as_str());
            out
        },
        GitHistoryError::MalformedGitStream { context, detail } => {
            let mut out = "failed to parse Git history while ".to_owned();
            out.append(*context);
            out.append(": ");
            out.append(detail.as_str());
            out
        },
        GitHistoryError::UnsupportedAuthorIdentity { commit_id } => {
            let mut out = "commit ".to_owned();
            out.append(commit_id.as_str());
            out.append(" has an author name or email that is not valid UTF-8");
            out
        },
        GitHistoryError::UnsupportedPathEncoding { commit_id } => {
            let mut out = "commit ".to_owned();
            out.append(commit_id.as_str());
            out.append(" changed a path that is not valid UTF-8");
            out
        },
        GitHistoryError::WorkerFailed { context } => {
            let mut out = "failed to traverse Git history while ".to_owned();
            out.append(*context);
            out
        },
    }
}

impl GitHistoryError {
    /// The error in words.
    pub fn message(&self) -> (out: String)
        ensures
            out@ == history_error_words(self.deep_view(), GitHistoryUsage::ExplainGit),
    {
        git_history_error_message(self, GitHistoryUsage::ExplainGit)
    }
}

/// An explanation error in words.
pub open spec fn explain_error_words(error: GitExplainErrorView) -> Seq<char> {
    match error {
        GitExplainErrorView::History(source) => history_error_words(
            source,
            GitHistoryUsage::ExplainGit,
        ),
        GitExplainErrorView::BareRepository => "Git repository has no worktree; explain-git requires a local worktree"@,
        GitExplainErrorView::EmptyPath => "explain-git requires a non-empty file path"@,
        GitExplainErrorView::PathOutsideRepository => "requested path is outside the Git worktree; pass a repository-relative path or a path under the current worktree"@,
        GitExplainErrorView::UnsupportedPathEncoding => "requested path is not valid UTF-8 and cannot be rendered as a portable repository-relative path"@,
        GitExplainErrorView::AmbiguousPath { first, second } => "requested path is ambiguous inside this worktree; it could refer to '"@
            + first + "' or '"@ + second + "'"@,
    }
}

impl GitExplainError {
    /// The error in words.
    pub fn message(&self) -> (out: String)
        ensures
            out@ == explain_error_words(self.deep_view()),
    {
        match self {
            GitExplainError::History(source) => source.message(),
            GitExplainError::BareRepository => "Git repository has no worktree; explain-git requires a local worktree".to_owned(),
            GitExplainError::EmptyPath => "explain-git requires a non-empty file path".to_owned(),
            GitExplainError::PathOutsideRepository => "requested path is outside the Git worktree; pass a repository-relative path or a path under the current worktree".to_owned(),
            GitExplainError::UnsupportedPathEncoding => "requested path is not valid UTF-8 and cannot be rendered as a portable repository-relative path".to_owned(),
            GitExplainError::AmbiguousPath { first, second } => {
                let mut out = "requested path is ambiguous inside this worktree; it could refer to '".to_owned();
                out.append(first.as_str());
                out.append("' or '");
                out.append(second.as_str());
                out.append("'");
                out
            },
        }
    }
}

} // verus!
