//! Collecting a history: from which commit, from the cache or from Git, and in what order.

use vstd::prelude::*;

use crate::git::cochange;
use crate::git::cochange::co_changes_from_changes;
use crate::git::explain;
use crate::git::explain::explain_file_from_analysis_at;
use crate::git::history;
use crate::git::history::{commit_ids_in, file_changes_from_head, sanitize_git_stderr};
use crate::git::metrics;
use crate::git::metrics::{file_metrics_from_changes_with_ownership, RECENT_CHURN_WINDOW_DAYS};
use crate::git::stream;
use crate::git::{
    GitAnalysis, GitAnalysisView, GitExplainError, GitExplainErrorView, GitFileChange,
    GitFileChangeView, GitHistoryError, GitHistoryErrorView,
};
use crate::order;
use crate::ownership::OperationalOwnershipSnapshot;
use crate::paths::native::{NativePath, NativePathView, RequestPlaces, RequestPlacesView};
use crate::table::{TextMap, TextSet};
use crate::text;

verus! {

/// So many commits are looked up in the cache at once.
pub const GIT_CACHE_LOOKUP_BATCH_SIZE: usize = 1024;

/// So many commits are written to the cache at once.
pub const GIT_COMMIT_CACHE_WRITE_BATCH_SIZE: usize = 512;

pub const GIT_HISTORY_CACHE_VERSION: &'static str = "hotpath.git-history-cli.v1";

/// Progress while walking reachable Git history.
#[derive(Debug, Clone, Copy, PartialEq, Eq, Structural)]
pub struct GitHistoryProgress {
    pub completed_commits: usize,
    pub total_commits: usize,
}

/// What Git answers when the commit at `HEAD` is looked up.
#[derive(Debug, Clone, PartialEq, Eq)]
pub enum HeadLookup {
    ReadFailed { unborn: bool, missing: bool, message: String },
    NotCommit { message: String },
    Commit { id: String, time: i64 },
}

/// What Git answers when a repository is looked up.
#[derive(Debug, Clone, PartialEq, Eq)]
pub enum RepositoryLookup {
    Failed { missing: bool, no_repository: bool, message: String },
    Found { shallow: bool, head: HeadLookup, worktree_root: Option<String> },
}

/// The commit from which a history is read, and its worktree.
#[derive(Debug, Clone, PartialEq, Eq)]
pub struct HistoryHead {
    pub worktree_root: String,
    pub commit_id: String,
    pub commit_time: i64,
}

/// What a command left behind.
#[derive(Debug, Clone, PartialEq, Eq)]
pub struct CommandOutput {
    pub success: bool,
    pub code: Option<i32>,
    pub stdout: Vec<u8>,
    pub stderr: Vec<u8>,
}

/// A commit that was read, with its change events.
#[derive(Debug, Clone, PartialEq, Eq)]
pub struct StreamedGitCommit {
    pub commit_id: String,
    pub changes: Vec<GitFileChange>,
}

/// How a history came out: its events, and the commits that are still to be cached.
#[derive(Debug, Clone, PartialEq, Eq)]
pub struct CollectedHistory {
    pub changes: Vec<GitFileChange>,
    pub writes: Vec<StreamedGitCommit>,
}

/// What [`HeadLookup`] stands for.
#[verifier::ext_equal]
pub enum HeadLookupView {
    ReadFailed { unborn: bool, missing: bool, message: Seq<char> },
    NotCommit { message: Seq<char> },
    Commit { id: Seq<char>, time: i64 },
}

impl DeepView for HeadLookup {
    type V = HeadLookupView;

    open spec fn deep_view(&self) -> HeadLookupView {
        match self {
            HeadLookup::ReadFailed { unborn, missing, message } => HeadLookupView::ReadFailed { unborn: *unborn, missing: *missing, message: message@ },
            HeadLookup::NotCommit { message } => HeadLookupView::NotCommit { message: message@ },
            HeadLookup::Commit { id, time } => HeadLookupView::Commit { id: id@, time: *time },
        }
    }
}

/// What [`RepositoryLookup`] stands for.
#[verifier::ext_equal]
pub enum RepositoryLookupView {
    Failed { missing: bool, no_repository: bool, message: Seq<char> },
    Found { shallow: bool, head: HeadLookupView, worktree_root: Option<Seq<char>> },
}

impl DeepView for RepositoryLookup {
    type V = RepositoryLookupView;

    open spec fn deep_view(&self) -> RepositoryLookupView {
        match self {
            RepositoryLookup::Failed { missing, no_repository, message } => RepositoryLookupView::Failed { missing: *missing, no_repository: *no_repository, message: message@ },
            RepositoryLookup::Found { shallow, head, worktree_root } => RepositoryLookupView::Found { shallow: *shallow, head: head.deep_view(), worktree_root: worktree_root.deep_view() },
        }
    }
}

/// What [`HistoryHead`] stands for.
#[verifier::ext_equal]
pub struct HistoryHeadView {
    pub worktree_root: Seq<char>,
    pub commit_id: Seq<char>,
    pub commit_time: i64,
}

impl DeepView for HistoryHead {
    type V = HistoryHeadView;

    open spec fn deep_view(&self) -> HistoryHeadView {
        HistoryHeadView {
            worktree_root: self.worktree_root@,
            commit_id: self.commit_id@,
            commit_time: self.commit_time,
        }
    }
}

/// What [`CommandOutput`] stands for.
#[verifier::ext_equal]
pub struct CommandOutputView {
    pub success: bool,
    pub code: Option<i32>,
    pub stdout: Seq<u8>,
    pub stderr: Seq<u8>,
}

impl DeepView for CommandOutput {
    type V = CommandOutputView;

    open spec fn deep_view(&self) -> CommandOutputView {
        CommandOutputView {
            success: self.success,
            code: self.code.deep_view(),
            stdout: self.stdout.deep_view(),
            stderr: self.stderr.deep_view(),
        }
    }
}

/// What [`StreamedGitCommit`] stands for.
#[verifier::ext_equal]
pub struct StreamedGitCommitView {
    pub commit_id: Seq<char>,
    pub changes: Seq<GitFileChangeView>,
}

impl DeepView for StreamedGitCommit {
    type V = StreamedGitCommitView;

    open spec fn deep_view(&self) -> StreamedGitCommitView {
        StreamedGitCommitView {
            commit_id: self.commit_id@,
            changes: self.changes.deep_view(),
        }
    }
}

/// What [`CollectedHistory`] stands for.
#[verifier::ext_equal]
pub struct CollectedHistoryView {
    pub changes: Seq<GitFileChangeView>,
    pub writes: Seq<StreamedGitCommitView>,
}

impl DeepView for CollectedHistory {
    type V = CollectedHistoryView;

    open spec fn deep_view(&self) -> CollectedHistoryView {
        CollectedHistoryView {
            changes: self.changes.deep_view(),
            writes: self.writes.deep_view(),
        }
    }
}

/// The commit from which the history of a repository is read, or why there is none.
pub open spec fn accepted(path: Seq<char>, lookup: RepositoryLookupView) -> Result<
    HistoryHeadView,
    GitHistoryErrorView,
> {
    match lookup {
        RepositoryLookupView::Failed { missing, no_repository, message } => Err(
            if missing || no_repository {
                GitHistoryErrorView::NotRepository { path, source: message }
            } else {
                GitHistoryErrorView::OpenRepository { path, source: message }
            },
        ),
        RepositoryLookupView::Found { shallow, head, worktree_root } => if shallow {
            Err(GitHistoryErrorView::ShallowRepository { path })
        } else {
            match head {
                HeadLookupView::ReadFailed { unborn, missing, message } => Err(
                    if unborn || missing {
                        GitHistoryErrorView::MissingHead { path }
                    } else {
                        GitHistoryErrorView::Git { context: "reading HEAD"@, source: message }
                    },
                ),
                HeadLookupView::NotCommit { message } => Err(
                    GitHistoryErrorView::HeadNotCommit { path, source: message },
                ),
                HeadLookupView::Commit { id, time } => match worktree_root {
                    Some(worktree_root) => Ok(
                        HistoryHeadView { worktree_root, commit_id: id, commit_time: time },
                    ),
                    None => Err(GitHistoryErrorView::BareRepository { path }),
                },
            }
        },
    }
}

/// The commit from which the history of the repository at `worktree_path` is read.
pub fn accept_history(worktree_path: &str, lookup: RepositoryLookup) -> (r: Result<
    HistoryHead,
    GitHistoryError,
>)
    ensures
        match r {
            Ok(head) => accepted(worktree_path@, lookup.deep_view()) == Ok::<
                HistoryHeadView,
                GitHistoryErrorView,
            >(head.deep_view()),
            Err(fault) => accepted(worktree_path@, lookup.deep_view()) == Err::<
                HistoryHeadView,
                GitHistoryErrorView,
            >(fault.deep_view()),
        },
{
    let path = worktree_path.to_string();
    match lookup {
        RepositoryLookup::Failed { missing, no_repository, message } => {
            if missing || no_repository {
                Err(GitHistoryError::NotRepository { path, source: message })
            } else {
                Err(GitHistoryError::OpenRepository { path, source: message })
            }
        },
        RepositoryLookup::Found { shallow, head, worktree_root } => {
            if shallow {
                return Err(GitHistoryError::ShallowRepository { path });
            }
            match head {
                HeadLookup::ReadFailed { unborn, missing, message } => {
                    if unborn || missing {
                        Err(GitHistoryError::MissingHead { path })
                    } else {
                        Err(GitHistoryError::Git { context: "reading HEAD", source: message })
                    }
                },
                HeadLookup::NotCommit { message } => Err(
                    GitHistoryError::HeadNotCommit { path, source: message },
                ),
                HeadLookup::Commit { id, time } => match worktree_root {
                    Some(worktree_root) => Ok(
                        HistoryHead { worktree_root, commit_id: id, commit_time: time },
                    ),
                    None => Err(GitHistoryError::BareRepository { path }),
                },
            }
        },
    }
}

/// The Git worktree root discovered from a path inside a non-bare repository.
pub fn worktree_root_at(worktree_path: &str, lookup: RepositoryLookup) -> (r: Result<
    String,
    GitHistoryError,
>)
    ensures
        match r {
            Ok(root) => accepted(worktree_path@, lookup.deep_view()) is Ok && accepted(
                worktree_path@,
                lookup.deep_view(),
            )->Ok_0.worktree_root == root@,
            Err(fault) => accepted(worktree_path@, lookup.deep_view()) == Err::<
                HistoryHeadView,
                GitHistoryErrorView,
            >(fault.deep_view()),
        },
{
    match accept_history(worktree_path, lookup) {
        Ok(head) => Ok(head.worktree_root),
        Err(fault) => Err(fault),
    }
}

/// The commits that a listing names, or why it failed.
pub fn reachable_commit_ids(output: &CommandOutput) -> (r: Result<Vec<String>, GitHistoryError>)
    ensures
        match r {
            Ok(ids) => output.success && vstd::utf8::valid_utf8(output.stdout@) && ids.deep_view()
                == history::listed_commits(vstd::utf8::decode_utf8(output.stdout@)),
            Err(fault) => if !output.success {
                fault.deep_view() == (GitHistoryErrorView::GitCommandFailed {
                    context: "listing reachable commits"@,
                    status: output.code,
                    stderr: history::stderr_words(text::utf8_lossy(output.stderr@)),
                })
            } else {
                !vstd::utf8::valid_utf8(output.stdout@) && fault.deep_view() == stream::malformed(
                    "listing reachable commits"@,
                    "rev-list output is not UTF-8: "@ + text::utf8_fault(output.stdout@),
                )
            },
        },
{
    if !output.success {
        return Err(
            GitHistoryError::GitCommandFailed {
                context: "listing reachable commits",
                status: output.code,
                stderr: sanitize_git_stderr(output.stderr.as_slice()),
            },
        );
    }
    commit_ids_in(output.stdout.as_slice())
}

/// What is to be handed to the command that reads commits: a line for each.
pub open spec fn request_text(ids: Seq<Seq<char>>) -> Seq<char>
    decreases ids.len(),
{
    if ids.len() == 0 {
        Seq::empty()
    } else {
        request_text(ids.drop_last()) + ids.last() + "\n"@
    }
}

/// What is to be handed to the command that reads commits.
pub fn commit_request(ids: &Vec<String>) -> (out: String)
    ensures
        out@ == request_text(ids.deep_view()),
{
    let ghost all = ids.deep_view();
    let mut out = String::new();
    let mut i: usize = 0;
    while i < ids.len()
        invariant
            i <= ids.len(),
            all == ids.deep_view(),
            out@ == request_text(all.take(i as int)),
        decreases ids.len() - i,
    {
        assert(all.take(i + 1).drop_last() =~= all.take(i as int));
        assert(all.take(i + 1).last() == ids@[i as int]@);
        out.append(ids[i].as_str());
        out.append("\n");
        i = i + 1;
    }
    assert(all.take(i as int) =~= all);
    out
}

/// How the command that reads commits ended.
pub fn stream_outcome(success: bool, code: Option<i32>, stderr: &[u8]) -> (r: Result<
    (),
    GitHistoryError,
>)
    ensures
        match r {
            Ok(_) => success,
            Err(fault) => !success && fault.deep_view() == (GitHistoryErrorView::GitCommandFailed {
                context: "streaming Git history"@,
                status: code,
                stderr: text::trimmed(text::utf8_lossy(stderr@)),
            }),
        },
{
    if success {
        return Ok(());
    }
    let words = text::decode_lossy(stderr);
    Err(
        GitHistoryError::GitCommandFailed {
            context: "streaming Git history",
            status: code,
            stderr: text::trim(words.as_str()),
        },
    )
}

/// How the workers ended together: with the first error that arrived, else with a failure where
/// one of them broke down.
pub fn workers_outcome(errors: Vec<GitHistoryError>, broken: bool) -> (r: Result<
    (),
    GitHistoryError,
>)
    ensures
        match r {
            Ok(_) => errors@.len() == 0 && !broken,
            Err(fault) => if errors@.len() > 0 {
                fault == errors@[0]
            } else {
                broken && fault.deep_view() == (GitHistoryErrorView::WorkerFailed {
                    context: "streaming Git history"@,
                })
            },
        },
{
    let mut errors = errors;
    if errors.len() > 0 {
        return Err(errors.remove(0));
    }
    if broken {
        return Err(GitHistoryError::WorkerFailed { context: "streaming Git history" });
    }
    Ok(())
}

/// The commits in the batches in which they are looked up.
pub open spec fn batches_of(ids: Seq<Seq<char>>) -> Seq<Seq<Seq<char>>>
    decreases ids.len(),
{
    if ids.len() == 0 {
        Seq::empty()
    } else if ids.len() <= GIT_CACHE_LOOKUP_BATCH_SIZE {
        seq![ids]
    } else {
        seq![ids.take(GIT_CACHE_LOOKUP_BATCH_SIZE as int)] + batches_of(
            ids.skip(GIT_CACHE_LOOKUP_BATCH_SIZE as int),
        )
    }
}

/// The batches hold all commits in their order.
pub proof fn batches_hold_all(ids: Seq<Seq<char>>)
    ensures
        batches_of(ids).flatten() == ids,
    decreases ids.len(),
{
    let size = GIT_CACHE_LOOKUP_BATCH_SIZE as int;
    if ids.len() == 0 {
        assert(batches_of(ids).flatten() =~= ids);
    } else if ids.len() <= size {
        seq![ids].lemma_flatten_one_element();
    } else {
        batches_hold_all(ids.skip(size));
        let first = seq![ids.take(size)];
        let rest = batches_of(ids.skip(size));
        vstd::seq_lib::lemma_flatten_concat(first, rest);
        first.lemma_flatten_one_element();
        assert(ids.take(size) + ids.skip(size) =~= ids);
    }
}

/// The commits in the batches in which they are looked up.
pub fn lookup_batches(ids: &Vec<String>) -> (out: Vec<Vec<String>>)
    ensures
        out.deep_view() == batches_of(ids.deep_view()),
{
    let ghost all = ids.deep_view();
    let mut out: Vec<Vec<String>> = Vec::new();
    let mut start: usize = 0;
    assert(all.skip(0) =~= all);
    assert(out.deep_view() + batches_of(all.skip(0)) =~= batches_of(all));
    while start < ids.len()
        invariant
            start <= ids.len(),
            all == ids.deep_view(),
            out.deep_view() + batches_of(all.skip(start as int)) == batches_of(all),
        decreases ids.len() - start,
    {
        let end: usize = if ids.len() - start <= GIT_CACHE_LOOKUP_BATCH_SIZE {
            ids.len()
        } else {
            start + GIT_CACHE_LOOKUP_BATCH_SIZE
        };
        let mut batch: Vec<String> = Vec::new();
        let mut i: usize = start;
        assert(batch.deep_view() =~= all.subrange(start as int, start as int));
        while i < end
            invariant
                start <= i <= end <= ids.len(),
                all == ids.deep_view(),
                batch.deep_view() == all.subrange(start as int, i as int),
            decreases end - i,
        {
            let ghost before = batch.deep_view();
            batch.push(ids[i].clone());
            assert(batch.deep_view() =~= before.push(all[i as int]));
            i = i + 1;
            assert(batch.deep_view() =~= all.subrange(start as int, i as int));
        }
        let ghost rest = all.skip(start as int);
        let ghost before = out.deep_view();
        let ghost one = batch.deep_view();
        out.push(batch);
        proof {
            assert(out.deep_view() =~= before.push(one));
            assert(one =~= rest.take(end - start));
            assert(rest.take(end - start) =~= if rest.len() <= GIT_CACHE_LOOKUP_BATCH_SIZE {
                rest
            } else {
                rest.take(GIT_CACHE_LOOKUP_BATCH_SIZE as int)
            });
            assert(rest.skip(end - start) =~= all.skip(end as int));
            assert(batches_of(rest) =~= seq![one] + batches_of(all.skip(end as int)));
            assert(out.deep_view() + batches_of(all.skip(end as int)) =~= before + batches_of(rest));
        }
        start = end;
    }
    assert(out.deep_view() + batches_of(all.skip(start as int)) =~= out.deep_view());
    out
}

/// What of a history is collected so far.
pub struct HistoryCollector {
    pub total: usize,
    pub completed: usize,
    pub changes: Vec<GitFileChange>,
    pub missing: Vec<String>,
    pub pending: Vec<StreamedGitCommit>,
}

/// What [`HistoryCollector`] stands for.
#[verifier::ext_equal]
pub struct HistoryCollectorView {
    pub total: nat,
    pub completed: nat,
    /// The events that arrived, in the order of their arrival.
    pub changes: Seq<GitFileChangeView>,
    /// The commits that are not in the cache.
    pub missing: Seq<Seq<char>>,
    /// The commits that were read and are not yet handed to the cache.
    pub pending: Seq<StreamedGitCommitView>,
}

impl DeepView for HistoryCollector {
    type V = HistoryCollectorView;

    open spec fn deep_view(&self) -> HistoryCollectorView {
        HistoryCollectorView {
            total: self.total as nat,
            completed: self.completed as nat,
            changes: self.changes.deep_view(),
            missing: self.missing.deep_view(),
            pending: self.pending.deep_view(),
        }
    }
}

/// The events of commits in a cache.
pub type CachedEvents = Map<Seq<char>, Seq<GitFileChangeView>>;

/// Whether the commit at `i` of a batch is taken from the cache: it is there, and was not taken
/// for an earlier place.
pub open spec fn is_hit(ids: Seq<Seq<char>>, cached: CachedEvents, i: int) -> bool {
    cached.dom().contains(ids[i]) && !ids.take(i).contains(ids[i])
}

/// What is collected once a batch of commits was looked up.
pub open spec fn after_lookup(
    state: HistoryCollectorView,
    ids: Seq<Seq<char>>,
    cached: CachedEvents,
) -> HistoryCollectorView
    decreases ids.len(),
{
    if ids.len() == 0 {
        state
    } else {
        let before = after_lookup(state, ids.drop_last(), cached);
        if is_hit(ids, cached, ids.len() - 1) {
            HistoryCollectorView {
                completed: before.completed + 1,
                changes: before.changes + cached[ids.last()],
                ..before
            }
        } else {
            HistoryCollectorView { missing: before.missing.push(ids.last()), ..before }
        }
    }
}

/// The progress that is reported while commits complete, up to `completed` from `before` on.
pub open spec fn progress_between(before: nat, completed: nat, total: nat) -> Seq<GitHistoryProgress> {
    Seq::new(
        (completed - before) as nat,
        |k: int| GitHistoryProgress {
            completed_commits: (before + k + 1) as usize,
            total_commits: total as usize,
        },
    )
}

/// A lookup leaves the rest as it is, and finds or misses each commit.
pub proof fn each_commit_is_found_or_missed(
    state: HistoryCollectorView,
    ids: Seq<Seq<char>>,
    cached: CachedEvents,
)
    ensures
        ({
            let after = after_lookup(state, ids, cached);
            &&& after.completed + after.missing.len() == state.completed + state.missing.len()
                + ids.len()
            &&& state.completed <= after.completed
            &&& state.missing.len() <= after.missing.len()
            &&& after.total == state.total
            &&& after.pending == state.pending
        }),
    decreases ids.len(),
{
    if ids.len() > 0 {
        each_commit_is_found_or_missed(state, ids.drop_last(), cached);
    }
}

/// What is collected once a commit was read: it waits to be cached, and a full batch is handed
/// out.
pub open spec fn after_commit(state: HistoryCollectorView, commit: StreamedGitCommitView) -> (
    HistoryCollectorView,
    Option<Seq<StreamedGitCommitView>>,
) {
    let pending = state.pending.push(commit);
    let grown = HistoryCollectorView {
        completed: state.completed + 1,
        changes: state.changes + commit.changes,
        ..state
    };
    if pending.len() >= GIT_COMMIT_CACHE_WRITE_BATCH_SIZE {
        (HistoryCollectorView { pending: Seq::empty(), ..grown }, Some(pending))
    } else {
        (HistoryCollectorView { pending, ..grown }, None)
    }
}

/// A copy of a change event.
fn copy_change(change: &GitFileChange) -> (out: GitFileChange)
    ensures
        out.deep_view() == change.deep_view(),
{
    GitFileChange {
        commit_id: change.commit_id.clone(),
        parent_count: change.parent_count,
        is_merge: change.is_merge,
        author: change.author.clone(),
        commit_time: change.commit_time,
        path: change.path.clone(),
        change_kind: change.change_kind,
        added_lines: change.added_lines,
        deleted_lines: change.deleted_lines,
    }
}

impl HistoryCollector {
    /// The start of a history of so many commits.
    pub fn new(total: usize) -> (out: HistoryCollector)
        ensures
            out.deep_view() == (HistoryCollectorView {
                total: total as nat,
                completed: 0,
                changes: Seq::empty(),
                missing: Seq::empty(),
                pending: Seq::empty(),
            }),
    {
        let out = HistoryCollector {
            total,
            completed: 0,
            changes: Vec::new(),
            missing: Vec::new(),
            pending: Vec::new(),
        };
        assert(out.deep_view() =~= (HistoryCollectorView {
            total: total as nat,
            completed: 0,
            changes: Seq::empty(),
            missing: Seq::empty(),
            pending: Seq::empty(),
        }));
        out
    }

    /// Takes from the cache what it holds of a batch of commits, and says how far that goes.
    pub fn absorb_cached(&mut self, ids: &Vec<String>, cached: TextMap<Vec<GitFileChange>>) -> (
        progress: Vec<GitHistoryProgress>)
        requires
            cached.wf(),
            old(self).completed + ids@.len() <= usize::MAX,
        ensures
            final(self).deep_view() == after_lookup(
                old(self).deep_view(),
                ids.deep_view(),
                cached.deep_view(),
            ),
            progress@ == progress_between(
                old(self).deep_view().completed,
                final(self).deep_view().completed,
                old(self).deep_view().total,
            ),
    {
        let ghost all = ids.deep_view();
        let ghost events = cached.deep_view();
        let ghost start = self.deep_view();
        let mut cached = cached;
        let mut seen = TextSet::new();
        let mut progress: Vec<GitHistoryProgress> = Vec::new();
        let mut i: usize = 0;
        assert(all.take(0).to_set() =~= Set::<Seq<char>>::empty());
        while i < ids.len()
            invariant
                i <= ids.len(),
                all == ids.deep_view(),
                cached.wf(),
                seen.wf(),
                seen@ == all.take(i as int).to_set(),
                cached@.dom() == events.dom(),
                forall|key: Seq<char>| #[trigger]
                    cached@.dom().contains(key) && !seen@.contains(key)
                        ==> cached@[key].deep_view() == events[key],
                self.deep_view() == after_lookup(start, all.take(i as int), events),
                start.completed <= self.completed,
                self.completed <= start.completed + i,
                start.completed + ids@.len() <= usize::MAX,
                progress@ == progress_between(
                    start.completed,
                    self.completed as nat,
                    start.total,
                ),
                self.total == start.total,
            decreases ids.len() - i,
        {
            let id = ids[i].as_str();
            let ghost now = all.take(i + 1);
            let ghost before = self.deep_view();
            let ghost said = progress@;
            proof {
                assert(now.drop_last() =~= all.take(i as int));
                assert(now.last() == id@);
                assert(now.take(now.len() - 1) =~= all.take(i as int));
                assert(now.to_set() =~= all.take(i as int).to_set().insert(id@)) by {
                    assert(now =~= all.take(i as int).push(id@));
                    broadcast use vstd::seq_lib::group_to_multiset_ensures;
                    assert forall|s: Seq<char>| now.to_set().contains(s) <==> all.take(
                        i as int,
                    ).to_set().insert(id@).contains(s) by {
                        if all.take(i as int).contains(s) {
                            let k = choose|k: int| 0 <= k < i && all.take(i as int)[k] == s;
                            assert(now[k] == s);
                        }
                        if s == id@ {
                            assert(now[i as int] == s);
                        }
                        if now.contains(s) {
                            let k = choose|k: int| 0 <= k < now.len() && now[k] == s;
                            if k < i {
                                assert(all.take(i as int)[k] == s);
                            }
                        }
                    }
                }
            }
            let fresh = seen.insert(id);
            let found: Option<usize> = if fresh {
                cached.position(id)
            } else {
                None
            };
            match found {
                Some(at) => {
                    let mut own = cached.replace_at(at, Vec::new());
                    let ghost taken = own.deep_view();
                    assert(taken == events[id@]);
                    self.changes.append(&mut own);
                    assert(self.changes.deep_view() =~= before.changes + taken);
                    self.completed = self.completed + 1;
                    progress.push(
                        GitHistoryProgress {
                            completed_commits: self.completed,
                            total_commits: self.total,
                        },
                    );
                    assert(progress@ =~= progress_between(
                        start.completed,
                        self.completed as nat,
                        start.total,
                    ));
                    assert(cached@.dom() =~= events.dom());
                    assert(self.deep_view() =~= after_lookup(start, now, events));
                },
                None => {
                    self.missing.push(ids[i].clone());
                    assert(self.missing.deep_view() =~= before.missing.push(id@));
                    assert(self.deep_view() =~= after_lookup(start, now, events));
                },
            }
            i = i + 1;
        }
        assert(all.take(i as int) =~= all);
        progress
    }

    /// Takes a commit that was read; hands out a batch to be cached where one is full.
    pub fn absorb_streamed(&mut self, commit: StreamedGitCommit) -> (out: (
        GitHistoryProgress,
        Option<Vec<StreamedGitCommit>>,
    ))
        requires
            old(self).completed < usize::MAX,
        ensures
            (final(self).deep_view(), out.1.deep_view()) == after_commit(
                old(self).deep_view(),
                commit.deep_view(),
            ),
            out.0 == (GitHistoryProgress {
                completed_commits: (old(self).completed + 1) as usize,
                total_commits: old(self).total,
            }),
    {
        let ghost before = self.deep_view();
        let ghost one = commit.deep_view();
        let mut i: usize = 0;
        assert(self.changes.deep_view() =~= before.changes + one.changes.take(0));
        while i < commit.changes.len()
            invariant
                i <= commit.changes.len(),
                one == commit.deep_view(),
                self.total == before.total,
                self.completed == before.completed,
                self.missing.deep_view() == before.missing,
                self.pending.deep_view() == before.pending,
                self.changes.deep_view() == before.changes + one.changes.take(i as int),
            decreases commit.changes.len() - i,
        {
            let ghost so_far = self.changes.deep_view();
            let change = copy_change(&commit.changes[i]);
            assert(one.changes[i as int] == change.deep_view());
            self.changes.push(change);
            assert(self.changes.deep_view() =~= so_far.push(change.deep_view()));
            i = i + 1;
            assert(self.changes.deep_view() =~= before.changes + one.changes.take(i as int));
        }
        assert(one.changes.take(i as int) =~= one.changes);
        self.completed = self.completed + 1;
        self.pending.push(commit);
        assert(self.pending.deep_view() =~= before.pending.push(one));
        let progress = GitHistoryProgress {
            completed_commits: self.completed,
            total_commits: self.total,
        };
        if self.pending.len() >= GIT_COMMIT_CACHE_WRITE_BATCH_SIZE {
            let mut full: Vec<StreamedGitCommit> = Vec::new();
            std::mem::swap(&mut self.pending, &mut full);
            assert(self.pending.deep_view() =~= Seq::<StreamedGitCommitView>::empty());
            (progress, Some(full))
        } else {
            (progress, None)
        }
    }

    /// The history in its order, and the commits that are still to be cached.
    pub fn finish(self) -> (out: CollectedHistory)
        ensures
            out.deep_view() == (CollectedHistoryView {
                changes: history_of(self.deep_view()),
                writes: self.deep_view().pending,
            }),
    {
        CollectedHistory { changes: file_changes_from_head(self.changes), writes: self.pending }
    }
}

/// The events that were collected, in the order of a history.
pub open spec fn history_of(state: HistoryCollectorView) -> Seq<GitFileChangeView> {
    order::sorted_by(state.changes, order::by_key::<GitFileChange>())
}

/// What is collected once commits were read one after the other, and the batches that were
/// handed out meanwhile.
pub open spec fn after_commits(
    state: HistoryCollectorView,
    commits: Seq<StreamedGitCommitView>,
) -> (HistoryCollectorView, Seq<Seq<StreamedGitCommitView>>)
    decreases commits.len(),
{
    if commits.len() == 0 {
        (state, Seq::empty())
    } else {
        let before = after_commits(state, commits.drop_last());
        let step = after_commit(before.0, commits.last());
        (
            step.0,
            match step.1 {
                Some(batch) => before.1.push(batch),
                None => before.1,
            },
        )
    }
}

/// The events of commits, one commit behind the other.
pub open spec fn events_of(commits: Seq<StreamedGitCommitView>) -> Seq<GitFileChangeView>
    decreases commits.len(),
{
    if commits.len() == 0 {
        Seq::empty()
    } else {
        events_of(commits.drop_last()) + commits.last().changes
    }
}

/// Each commit that was read is counted once, and waits or was handed out to be cached, in the
/// order of reading, each batch being full.
pub proof fn read_commits_are_cached_once(
    state: HistoryCollectorView,
    commits: Seq<StreamedGitCommitView>,
)
    requires
        state.pending.len() < GIT_COMMIT_CACHE_WRITE_BATCH_SIZE,
    ensures
        ({
            let (after, batches) = after_commits(state, commits);
            &&& batches.flatten() + after.pending == state.pending + commits
            &&& after.pending.len() < GIT_COMMIT_CACHE_WRITE_BATCH_SIZE
            &&& forall|i: int|
                0 <= i < batches.len() ==> (#[trigger] batches[i]).len()
                    == GIT_COMMIT_CACHE_WRITE_BATCH_SIZE
            &&& after.completed == state.completed + commits.len()
            &&& after.changes == state.changes + events_of(commits)
            &&& after.missing == state.missing
            &&& after.total == state.total
        }),
    decreases commits.len(),
{
    let (after, batches) = after_commits(state, commits);
    if commits.len() == 0 {
        assert(batches.flatten() =~= Seq::<StreamedGitCommitView>::empty());
        assert(batches.flatten() + after.pending =~= state.pending + commits);
        assert(after.changes =~= state.changes + events_of(commits));
    } else {
        let front = commits.drop_last();
        read_commits_are_cached_once(state, front);
        let (before, earlier) = after_commits(state, front);
        let pending = before.pending.push(commits.last());
        assert(state.pending + commits =~= (state.pending + front).push(commits.last()));
        assert(after.changes =~= state.changes + events_of(commits));
        if pending.len() >= GIT_COMMIT_CACHE_WRITE_BATCH_SIZE {
            earlier.lemma_flatten_push(pending);
            assert(batches.flatten() + after.pending =~= earlier.flatten() + pending);
            assert(earlier.flatten() + pending =~= (earlier.flatten() + before.pending).push(
                commits.last(),
            ));
        } else {
            assert(batches.flatten() + after.pending =~= (earlier.flatten() + before.pending).push(
                commits.last(),
            ));
        }
    }
}

/// A batch of commits and what the cache holds of it.
#[verifier::ext_equal]
pub struct LookupView {
    pub ids: Seq<Seq<char>>,
    pub cached: CachedEvents,
}

/// What is collected once batches of commits were looked up.
pub open spec fn after_lookups(state: HistoryCollectorView, lookups: Seq<LookupView>) -> HistoryCollectorView
    decreases lookups.len(),
{
    if lookups.len() == 0 {
        state
    } else {
        after_lookup(
            after_lookups(state, lookups.drop_last()),
            lookups.last().ids,
            lookups.last().cached,
        )
    }
}

/// The commits of the batches.
pub open spec fn looked_up(lookups: Seq<LookupView>) -> Seq<Seq<char>>
    decreases lookups.len(),
{
    if lookups.len() == 0 {
        Seq::empty()
    } else {
        looked_up(lookups.drop_last()) + lookups.last().ids
    }
}

proof fn lookups_keep_count(state: HistoryCollectorView, lookups: Seq<LookupView>)
    ensures
        ({
            let after = after_lookups(state, lookups);
            &&& after.completed + after.missing.len() == state.completed + state.missing.len()
                + looked_up(lookups).len()
            &&& after.total == state.total
            &&& after.pending == state.pending
        }),
    decreases lookups.len(),
{
    if lookups.len() > 0 {
        lookups_keep_count(state, lookups.drop_last());
        each_commit_is_found_or_missed(
            after_lookups(state, lookups.drop_last()),
            lookups.last().ids,
            lookups.last().cached,
        );
    }
}

/// The start of a history of so many commits.
pub open spec fn started(total: nat) -> HistoryCollectorView {
    HistoryCollectorView {
        total,
        completed: 0,
        changes: Seq::empty(),
        missing: Seq::empty(),
        pending: Seq::empty(),
    }
}

/// Once all commits were looked up, and as many were read as were missing, all are complete.
pub proof fn progress_ends_at_the_total(
    lookups: Seq<LookupView>,
    commits: Seq<StreamedGitCommitView>,
)
    requires
        ({
            let found = after_lookups(started(looked_up(lookups).len()), lookups);
            commits.len() == found.missing.len()
        }),
    ensures
        ({
            let found = after_lookups(started(looked_up(lookups).len()), lookups);
            let after = after_commits(found, commits).0;
            after.completed == after.total && after.total == looked_up(lookups).len()
        }),
{
    let state = started(looked_up(lookups).len());
    lookups_keep_count(state, lookups);
    read_commits_are_cached_once(after_lookups(state, lookups), commits);
}

/// The events that a table has for commits, one commit behind the other.
pub open spec fn table_events(ids: Seq<Seq<char>>, table: CachedEvents) -> Seq<GitFileChangeView>
    decreases ids.len(),
{
    if ids.len() == 0 {
        Seq::empty()
    } else {
        table_events(ids.drop_last(), table) + table[ids.last()]
    }
}

/// Whether the cache holds nothing but what the table has.
pub open spec fn agrees_with(lookups: Seq<LookupView>, table: CachedEvents) -> bool {
    forall|i: int, id: Seq<char>|
        0 <= i < lookups.len() && #[trigger] lookups[i].cached.dom().contains(id)
            ==> lookups[i].cached[id] == table[id]
}

/// The commits by their ids.
pub open spec fn ids_of(commits: Seq<StreamedGitCommitView>) -> Seq<Seq<char>> {
    Seq::new(commits.len(), |i: int| commits[i].commit_id)
}

/// Whether the commits are the missing ones, in any order, with what the table has for them.
pub open spec fn reads(
    commits: Seq<StreamedGitCommitView>,
    missing: Seq<Seq<char>>,
    table: CachedEvents,
) -> bool {
    &&& ids_of(commits).to_multiset() == missing.to_multiset()
    &&& forall|i: int|
        0 <= i < commits.len() ==> (#[trigger] commits[i]).changes == table[commits[i].commit_id]
}

proof fn lookup_splits_events(
    state: HistoryCollectorView,
    ids: Seq<Seq<char>>,
    cached: CachedEvents,
    table: CachedEvents,
)
    requires
        forall|id: Seq<char>| #[trigger]
            cached.dom().contains(id) ==> cached[id] == table[id],
    ensures
        ({
            let after = after_lookup(state, ids, cached);
            (after.changes + table_events(after.missing, table)).to_multiset() == (state.changes
                + table_events(state.missing, table)).to_multiset().add(
                table_events(ids, table).to_multiset(),
            )
        }),
    decreases ids.len(),
{
    broadcast use vstd::seq_lib::group_to_multiset_ensures;

    let after = after_lookup(state, ids, cached);
    let start = (state.changes + table_events(state.missing, table)).to_multiset();
    if ids.len() == 0 {
        assert(table_events(ids, table).to_multiset() =~= vstd::multiset::Multiset::empty());
        assert(start.add(table_events(ids, table).to_multiset()) =~= start);
    } else {
        let front = ids.drop_last();
        let last = ids.last();
        let before = after_lookup(state, front, cached);
        lookup_splits_events(state, front, cached, table);
        vstd::seq_lib::lemma_multiset_commutative(table_events(front, table), table[last]);
        vstd::seq_lib::lemma_multiset_commutative(
            before.changes,
            table_events(before.missing, table),
        );
        assert(ids.last() == ids[ids.len() - 1]);
        if is_hit(ids, cached, ids.len() - 1) {
            assert(cached.dom().contains(last));
            assert(after.changes == before.changes + table[last]);
            assert(after.missing == before.missing);
            vstd::seq_lib::lemma_multiset_commutative(before.changes, table[last]);
            vstd::seq_lib::lemma_multiset_commutative(
                after.changes,
                table_events(after.missing, table),
            );
        } else {
            assert(after.changes == before.changes);
            assert(after.missing == before.missing.push(last));
            assert(after.missing.drop_last() =~= before.missing);
            assert(after.missing.last() == last);
            assert(table_events(after.missing, table) == table_events(before.missing, table)
                + table[last]);
            vstd::seq_lib::lemma_multiset_commutative(
                table_events(before.missing, table),
                table[last],
            );
            vstd::seq_lib::lemma_multiset_commutative(
                after.changes,
                table_events(after.missing, table),
            );
        }
        assert(table_events(ids, table) == table_events(front, table) + table[last]);
        let bc = before.changes.to_multiset();
        let bm = table_events(before.missing, table).to_multiset();
        let fm = table_events(front, table).to_multiset();
        let lm = table[last].to_multiset();
        assert(bc.add(bm) == start.add(fm));
        assert(table_events(ids, table).to_multiset() == fm.add(lm));
        assert(after.changes.to_multiset().add(table_events(after.missing, table).to_multiset())
            =~= bc.add(bm).add(lm));
        assert(start.add(fm).add(lm) =~= start.add(fm.add(lm)));
        assert((after.changes + table_events(after.missing, table)).to_multiset() =~= start.add(
            table_events(ids, table).to_multiset(),
        ));
    }
}

proof fn lookups_split_events(
    state: HistoryCollectorView,
    lookups: Seq<LookupView>,
    table: CachedEvents,
)
    requires
        agrees_with(lookups, table),
    ensures
        ({
            let after = after_lookups(state, lookups);
            (after.changes + table_events(after.missing, table)).to_multiset() == (state.changes
                + table_events(state.missing, table)).to_multiset().add(
                table_events(looked_up(lookups), table).to_multiset(),
            )
        }),
    decreases lookups.len(),
{
    broadcast use vstd::seq_lib::group_to_multiset_ensures;

    let after = after_lookups(state, lookups);
    let start = (state.changes + table_events(state.missing, table)).to_multiset();
    if lookups.len() == 0 {
        assert(table_events(looked_up(lookups), table).to_multiset()
            =~= vstd::multiset::Multiset::empty());
        assert(start.add(table_events(looked_up(lookups), table).to_multiset()) =~= start);
    } else {
        let front = lookups.drop_last();
        let last = lookups.last();
        assert forall|i: int, id: Seq<char>|
            0 <= i < front.len() && #[trigger] front[i].cached.dom().contains(id) implies
            front[i].cached[id] == table[id] by {
            assert(lookups[i].cached.dom().contains(id));
        }
        assert forall|id: Seq<char>| #[trigger] last.cached.dom().contains(id) implies
            last.cached[id] == table[id] by {
            assert(lookups[lookups.len() - 1].cached.dom().contains(id));
        }
        lookups_split_events(state, front, table);
        lookup_splits_events(after_lookups(state, front), last.ids, last.cached, table);
        table_events_concat(looked_up(front), last.ids, table);
        vstd::seq_lib::lemma_multiset_commutative(
            table_events(looked_up(front), table),
            table_events(last.ids, table),
        );
        assert((after.changes + table_events(after.missing, table)).to_multiset() =~= start.add(
            table_events(looked_up(lookups), table).to_multiset(),
        ));
    }
}

proof fn table_events_concat(a: Seq<Seq<char>>, b: Seq<Seq<char>>, table: CachedEvents)
    ensures
        table_events(a + b, table) == table_events(a, table) + table_events(b, table),
    decreases b.len(),
{
    if b.len() == 0 {
        assert(a + b =~= a);
        assert(table_events(a, table) + table_events(b, table) =~= table_events(a, table));
    } else {
        table_events_concat(a, b.drop_last(), table);
        assert((a + b).drop_last() =~= a + b.drop_last());
        assert(table_events(a + b, table) =~= table_events(a, table) + table_events(b, table));
    }
}

/// The events of the same commits in another order are the same events in another order.
proof fn table_events_permute(a: Seq<Seq<char>>, b: Seq<Seq<char>>, table: CachedEvents)
    requires
        a.to_multiset() == b.to_multiset(),
    ensures
        table_events(a, table).to_multiset() == table_events(b, table).to_multiset(),
    decreases a.len(),
{
    broadcast use vstd::seq_lib::group_to_multiset_ensures;

    vstd::seq_lib::to_multiset_len(a);
    vstd::seq_lib::to_multiset_len(b);
    if a.len() > 0 {
        let x = a.last();
        let front = a.drop_last();
        assert(front.push(x) =~= a);
        order::contains_by_multiset(a, b, x);
        let k = choose|k: int| 0 <= k < b.len() && b[k] == x;
        let head = b.take(k);
        let tail = b.skip(k + 1);
        assert(b =~= head + (seq![x] + tail));
        assert(b.remove(k) =~= head + tail);
        vstd::seq_lib::to_multiset_remove(b, k);
        assert(front.to_multiset() =~= (head + tail).to_multiset()) by {
            assert(a.to_multiset() =~= front.to_multiset().insert(x));
            assert(b.remove(k).to_multiset() =~= b.to_multiset().remove(x));
        }
        table_events_permute(front, head + tail, table);
        table_events_concat(head, seq![x] + tail, table);
        table_events_concat(seq![x], tail, table);
        table_events_concat(head, tail, table);
        let ex = table[x];
        let single = seq![x];
        assert(single.drop_last() =~= Seq::<Seq<char>>::empty());
        assert(single.last() == x);
        assert(table_events(single.drop_last(), table) =~= Seq::<GitFileChangeView>::empty());
        assert(table_events(single, table) =~= ex);
        let eh = table_events(head, table);
        let et = table_events(tail, table);
        vstd::seq_lib::lemma_multiset_commutative(table_events(front, table), ex);
        vstd::seq_lib::lemma_multiset_commutative(eh, ex + et);
        vstd::seq_lib::lemma_multiset_commutative(ex, et);
        vstd::seq_lib::lemma_multiset_commutative(eh, et);
        assert(table_events(a, table).to_multiset() =~= table_events(b, table).to_multiset());
    } else {
        assert(a =~= b);
    }
}

proof fn read_events(
    commits: Seq<StreamedGitCommitView>,
    table: CachedEvents,
)
    requires
        forall|i: int|
            0 <= i < commits.len() ==> (#[trigger] commits[i]).changes
                == table[commits[i].commit_id],
    ensures
        events_of(commits) == table_events(ids_of(commits), table),
    decreases commits.len(),
{
    if commits.len() > 0 {
        let front = commits.drop_last();
        assert forall|i: int| 0 <= i < front.len() implies (#[trigger] front[i]).changes
            == table[front[i].commit_id] by {
            assert(front[i] == commits[i]);
        }
        read_events(front, table);
        assert(ids_of(commits).drop_last() =~= ids_of(front));
        assert(ids_of(commits).last() == commits.last().commit_id);
        assert(commits[commits.len() - 1].changes == table[commits.last().commit_id]);
    }
}

proof fn collected_events(
    lookups: Seq<LookupView>,
    commits: Seq<StreamedGitCommitView>,
    table: CachedEvents,
)
    requires
        agrees_with(lookups, table),
        reads(commits, after_lookups(started(looked_up(lookups).len()), lookups).missing, table),
    ensures
        after_commits(
            after_lookups(started(looked_up(lookups).len()), lookups),
            commits,
        ).0.changes.to_multiset() == table_events(looked_up(lookups), table).to_multiset(),
{
    broadcast use vstd::seq_lib::group_to_multiset_ensures;

    let state = started(looked_up(lookups).len());
    let found = after_lookups(state, lookups);
    lookups_keep_count(state, lookups);
    lookups_split_events(state, lookups, table);
    read_commits_are_cached_once(found, commits);
    read_events(commits, table);
    table_events_permute(ids_of(commits), found.missing, table);
    vstd::seq_lib::lemma_multiset_commutative(found.changes, events_of(commits));
    vstd::seq_lib::lemma_multiset_commutative(found.changes, table_events(found.missing, table));
    assert((state.changes + table_events(state.missing, table)).to_multiset()
        =~= vstd::multiset::Multiset::empty());
    assert(after_commits(found, commits).0.changes.to_multiset() =~= table_events(
        looked_up(lookups),
        table,
    ).to_multiset());
}

/// Whether events are those of a record that is read for a commit.
pub open spec fn is_read_for(id: Seq<char>, events: Seq<GitFileChangeView>) -> bool {
    exists|record: Seq<u8>|
        (#[trigger] stream::record_value(record)) matches Ok(parsed) && parsed.commit_id == id
            && parsed.changes == events
}

/// Whether the table has, for each of the commits, the events of a record that is read for it.
pub open spec fn holds_read_records(ids: Seq<Seq<char>>, table: CachedEvents) -> bool {
    forall|i: int| 0 <= i < ids.len() ==> is_read_for(#[trigger] ids[i], table[ids[i]])
}

proof fn table_event_is_of_its_commit(
    ids: Seq<Seq<char>>,
    table: CachedEvents,
    event: GitFileChangeView,
)
    requires
        holds_read_records(ids, table),
        table_events(ids, table).contains(event),
    ensures
        ids.contains(event.commit_id),
        table[event.commit_id].contains(event),
    decreases ids.len(),
{
    if ids.len() > 0 {
        let front = ids.drop_last();
        let last = ids.last();
        assert(ids[ids.len() - 1] == last);
        assert forall|i: int| 0 <= i < front.len() implies is_read_for(
            #[trigger] front[i],
            table[front[i]],
        ) by {
            assert(front[i] == ids[i]);
        }
        let before = table_events(front, table);
        let all = before + table[last];
        let k = choose|k: int| 0 <= k < all.len() && all[k] == event;
        if k < before.len() {
            assert(before[k] == event);
            table_event_is_of_its_commit(front, table, event);
            let at = choose|i: int| 0 <= i < front.len() && front[i] == event.commit_id;
            assert(ids[at] == event.commit_id);
        } else {
            let m = k - before.len();
            assert(table[last][m] == event);
            let record = choose|record: Seq<u8>|
                (#[trigger] stream::record_value(record)) matches Ok(parsed) && parsed.commit_id
                    == last && parsed.changes == table[last];
            stream::events_of_a_record_share_its_header(record);
        }
    }
}

/// Events that are read from the records of their commits are coherent: those that tie are equal.
pub proof fn read_records_are_coherent(ids: Seq<Seq<char>>, table: CachedEvents)
    requires
        holds_read_records(ids, table),
    ensures
        history::events_are_coherent(table_events(ids, table)),
{
    let all = table_events(ids, table);
    let lt = order::by_key::<GitFileChange>();
    assert forall|i: int, j: int|
        0 <= i < all.len() && 0 <= j < all.len() && !lt(all[i], all[j]) && !lt(
            all[j],
            all[i],
        ) implies #[trigger] all[i] == #[trigger] all[j] by {
        let a = all[i];
        let b = all[j];
        assert(all.contains(a));
        assert(all.contains(b));
        table_event_is_of_its_commit(ids, table, a);
        table_event_is_of_its_commit(ids, table, b);
        if a.commit_id == b.commit_id {
            let id = a.commit_id;
            let at = choose|k: int| 0 <= k < ids.len() && ids[k] == id;
            assert(is_read_for(ids[at], table[id]));
            let record = choose|record: Seq<u8>|
                (#[trigger] stream::record_value(record)) matches Ok(parsed) && parsed.commit_id
                    == id && parsed.changes == table[id];
            stream::events_of_a_record_share_its_header(record);
            let m = choose|m: int| 0 <= m < table[id].len() && table[id][m] == a;
            let n = choose|n: int| 0 <= n < table[id].len() && table[id][n] == b;
            assert(stream::share_header(table[id][m], table[id][n]));
        }
        stream::ties_within_a_commit_are_equal(a, b);
    }
}

/// In whatever order the events of commits arrive that are read from their records, the same
/// history comes out.
pub proof fn history_of_read_records_ignores_arrival(
    ids: Seq<Seq<char>>,
    table: CachedEvents,
    arrived: Seq<GitFileChangeView>,
)
    requires
        holds_read_records(ids, table),
        arrived.to_multiset() == table_events(ids, table).to_multiset(),
    ensures
        order::sorted_by(arrived, order::by_key::<GitFileChange>()) == order::sorted_by(
            table_events(ids, table),
            order::by_key::<GitFileChange>(),
        ),
{
    read_records_are_coherent(ids, table);
    history::history_ignores_arrival(table_events(ids, table), arrived);
}

/// Whatever the cache holds of what was read of the commits, and in whatever order the missing ones
/// are read, the same history comes out for the same commits.
pub proof fn history_does_not_depend_on_the_cache(
    first: Seq<LookupView>,
    first_reads: Seq<StreamedGitCommitView>,
    second: Seq<LookupView>,
    second_reads: Seq<StreamedGitCommitView>,
    table: CachedEvents,
)
    requires
        looked_up(first) == looked_up(second),
        agrees_with(first, table),
        agrees_with(second, table),
        reads(first_reads, after_lookups(started(looked_up(first).len()), first).missing, table),
        reads(second_reads, after_lookups(started(looked_up(second).len()), second).missing, table),
        holds_read_records(looked_up(first), table),
    ensures
        history_of(
            after_commits(after_lookups(started(looked_up(first).len()), first), first_reads).0,
        ) == history_of(
            after_commits(after_lookups(started(looked_up(second).len()), second), second_reads).0,
        ),
{
    collected_events(first, first_reads, table);
    collected_events(second, second_reads, table);
    let all = table_events(looked_up(first), table);
    let a = after_commits(after_lookups(started(looked_up(first).len()), first), first_reads).0;
    let b = after_commits(after_lookups(started(looked_up(second).len()), second), second_reads).0;
    read_records_are_coherent(looked_up(first), table);
    history::history_ignores_arrival(all, a.changes);
    history::history_ignores_arrival(all, b.changes);
}

/// What is derived from a history.
pub open spec fn is_analysis_of(
    analysis: GitAnalysisView,
    head: HistoryHeadView,
    changes: Seq<GitFileChangeView>,
) -> bool {
    &&& analysis.worktree_root == head.worktree_root
    &&& analysis.head_commit_id == head.commit_id
    &&& analysis.head_commit_time == head.commit_time
    &&& analysis.recent_window_days == RECENT_CHURN_WINDOW_DAYS
    &&& analysis.changes == changes
    &&& metrics::is_metrics_table(
        analysis.file_metrics,
        changes,
        head.commit_time,
        analysis.ownership,
    )
    &&& cochange::is_co_change_table(analysis.co_changes, changes)
}

/// Derives from a history what is known of its files. The shares of owners are weighed
/// elsewhere.
pub fn analyze_from_head_at(
    head: HistoryHead,
    changes: Vec<GitFileChange>,
    ownership: OperationalOwnershipSnapshot,
) -> (out: GitAnalysis)
    requires
        metrics::churn_fits(changes.deep_view()),
        metrics::ages_fit(changes.deep_view(), head.commit_time),
    ensures
        is_analysis_of(out.deep_view(), head.deep_view(), changes.deep_view()),
        out.ownership == ownership,
{
    let file_metrics = file_metrics_from_changes_with_ownership(
        changes.as_slice(),
        head.commit_time,
        &ownership,
    );
    let co_changes = co_changes_from_changes(changes.as_slice());
    GitAnalysis {
        worktree_root: head.worktree_root,
        head_commit_id: head.commit_id,
        head_commit_time: head.commit_time,
        recent_window_days: RECENT_CHURN_WINDOW_DAYS,
        changes,
        file_metrics,
        co_changes,
        ownership,
    }
}

/// The repository-relative path that is requested, where there is an analysis, or why there is
/// none.
pub open spec fn requested_from(
    analysis: Result<GitAnalysisView, GitHistoryErrorView>,
    places: RequestPlacesView,
    requested: NativePathView,
    existing: Set<Seq<char>>,
) -> Result<Seq<char>, GitExplainErrorView> {
    match analysis {
        Err(fault) => Err(GitExplainErrorView::History(fault)),
        Ok(v) => explain::requested_file(
            places,
            requested,
            explain::metric_paths(v.file_metrics),
            existing,
        ),
    }
}

/// The explanation of a file, where there is an analysis.
pub open spec fn explained_from(
    analysis: Result<GitAnalysisView, GitHistoryErrorView>,
    requested: Result<Seq<char>, GitExplainErrorView>,
) -> Result<Seq<char>, GitExplainErrorView> {
    match analysis {
        Err(fault) => Err(GitExplainErrorView::History(fault)),
        Ok(v) => explain::explained(v, requested),
    }
}

/// What an analysis, or why there is none, stands for.
pub open spec fn analysis_view(analysis: Result<GitAnalysis, GitHistoryError>) -> Result<
    GitAnalysisView,
    GitHistoryErrorView,
> {
    match analysis {
        Ok(analysis) => Ok(analysis.deep_view()),
        Err(fault) => Err(fault.deep_view()),
    }
}

/// Explains local Git history metrics and co-changes from a specific worktree context.
pub fn explain_file_from_head_at(
    analysis: Result<GitAnalysis, GitHistoryError>,
    places: &RequestPlaces,
    requested_path: &NativePath,
    existing: &[String],
) -> (r: Result<String, GitExplainError>)
    requires
        analysis matches Ok(analysis) ==> explain::requested_churn_adds_up(
            analysis.deep_view().file_metrics,
            requested_from(
                Ok(analysis.deep_view()),
                places.deep_view(),
                requested_path.deep_view(),
                existing.deep_view().to_set(),
            ),
        ),
    ensures
        ({
            let found = analysis_view(analysis);
            let expected = explained_from(
                found,
                requested_from(
                    found,
                    places.deep_view(),
                    requested_path.deep_view(),
                    existing.deep_view().to_set(),
                ),
            );
            match r {
                Ok(text) => expected == Ok::<Seq<char>, GitExplainErrorView>(text@),
                Err(fault) => expected == Err::<Seq<char>, GitExplainErrorView>(fault.deep_view()),
            }
        }),
{
    match analysis {
        Err(fault) => Err(GitExplainError::History(fault)),
        Ok(analysis) => explain_file_from_analysis_at(&analysis, places, requested_path, existing),
    }
}

/// Explains local Git history metrics and co-changes for one requested file.
///
/// The requested path may be repository-relative or relative to the current directory among the
/// `places`, which is the directory of the process.
pub fn explain_file_from_head(
    analysis: Result<GitAnalysis, GitHistoryError>,
    places: &RequestPlaces,
    requested_path: &NativePath,
    existing: &[String],
) -> (r: Result<String, GitExplainError>)
    requires
        analysis matches Ok(analysis) ==> explain::requested_churn_adds_up(
            analysis.deep_view().file_metrics,
            requested_from(
                Ok(analysis.deep_view()),
                places.deep_view(),
                requested_path.deep_view(),
                existing.deep_view().to_set(),
            ),
        ),
    ensures
        ({
            let found = analysis_view(analysis);
            let expected = explained_from(
                found,
                requested_from(
                    found,
                    places.deep_view(),
                    requested_path.deep_view(),
                    existing.deep_view().to_set(),
                ),
            );
            match r {
                Ok(text) => expected == Ok::<Seq<char>, GitExplainErrorView>(text@),
                Err(fault) => expected == Err::<Seq<char>, GitExplainErrorView>(fault.deep_view()),
            }
        }),
{
    explain_file_from_head_at(analysis, places, requested_path, existing)
}

} // verus!
