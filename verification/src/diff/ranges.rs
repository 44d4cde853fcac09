//! When a range has a report, and of which commits it is.

use vstd::prelude::*;

use crate::diff;
use crate::diff::committed;
use crate::diff::committed::{
    CommitLookupView, CurrentHeadView, RangeLookupView, TreesLookupView,
};
use crate::diff::{DiffErrorView, DiffReportView};

verus! {

/// A report is of the commits that the names of its range mean, in a repository that is neither
/// shallow nor bare, and its later commit is the current one.
pub proof fn reports_are_of_the_current_head(
    path: Seq<char>,
    range: Seq<char>,
    lookup: RangeLookupView,
)
    requires
        committed::committed_report(path, range, lookup) is Ok,
    ensures
        ({
            let report = committed::committed_report(path, range, lookup)->Ok_0;
            &&& lookup matches RangeLookupView::Found { shallow, bare, current, base, head, trees }
            &&& !shallow && !bare
            &&& current matches CurrentHeadView::Commit { id: current }
            &&& base matches CommitLookupView::Commit { id: base }
            &&& head matches CommitLookupView::Commit { id: head }
            &&& trees matches TreesLookupView::Diffed { merge_base, deltas }
            &&& head == current
            &&& report.range.base_commit_id == base
            &&& report.range.head_commit_id == head
            &&& report.range.merge_base_commit_id == merge_base
            &&& diff::changed_files(deltas, head) == Ok::<_, DiffErrorView>(report.changed_files)
            &&& diff::parsed_range(range) matches Ok(names)
            &&& report.range.base_ref == names.base_ref
            &&& report.range.head_ref == names.head_ref
            &&& report.range.requested == names.requested
        }),
{
}

/// A range whose later commit is not the current one has no report, and the error names both.
pub proof fn other_heads_are_refused(
    path: Seq<char>,
    range: Seq<char>,
    base: Seq<char>,
    head: Seq<char>,
    current: Seq<char>,
    trees: TreesLookupView,
)
    requires
        diff::parsed_range(range) is Ok,
        head != current,
    ensures
        ({
            let lookup = RangeLookupView::Found {
                shallow: false,
                bare: false,
                current: CurrentHeadView::Commit { id: current },
                base: CommitLookupView::Commit { id: base },
                head: CommitLookupView::Commit { id: head },
                trees,
            };
            committed::committed_report(path, range, lookup) matches Err(
                DiffErrorView::ResolvedHeadNotCurrentHead {
                    resolved_head_commit_id,
                    current_head_commit_id,
                    ..
                },
            ) && resolved_head_commit_id == head && current_head_commit_id == current
        }),
{
}

/// A shallow or a bare repository has no report, whatever else is known of it.
pub proof fn shallow_and_bare_repositories_are_refused(
    path: Seq<char>,
    range: Seq<char>,
    shallow: bool,
    bare: bool,
    current: CurrentHeadView,
    base: CommitLookupView,
    head: CommitLookupView,
    trees: TreesLookupView,
)
    requires
        shallow || bare,
    ensures
        committed::committed_report(
            path,
            range,
            RangeLookupView::Found { shallow, bare, current, base, head, trees },
        ) is Err,
        diff::parsed_range(range) is Ok && shallow ==> committed::committed_report(
            path,
            range,
            RangeLookupView::Found { shallow, bare, current, base, head, trees },
        ) == Err::<DiffReportView, DiffErrorView>(DiffErrorView::ShallowRepository { path }),
        diff::parsed_range(range) is Ok && !shallow ==> committed::committed_report(
            path,
            range,
            RangeLookupView::Found { shallow, bare, current, base, head, trees },
        ) == Err::<DiffReportView, DiffErrorView>(DiffErrorView::BareRepository { path }),
{
}

} // verus!
