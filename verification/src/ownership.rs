//! Operational ownership: who keeps a file going.

pub mod laws;

use vstd::prelude::*;

use crate::git::{GitFileChange, GitFileChangeView};
use crate::measure;
use crate::measure::{Real, RealView};
use crate::order;
use crate::order::{KeyPart, Ordered};
use crate::table;
use crate::table::{TextMap, TextRelation, TextSet};
use crate::text;

verus! {

/// So many owners of a file are shown.
pub const OWNER_DISPLAY_LIMIT: usize = 3;

/// The bits of 0.10: from this share on an owner may be shown whatever the rank.
pub const OWNER_SHARE_THRESHOLD_BITS: u64 = 0x3FB9_9999_9999_999A;

/// From so many commits on a contribution is meaningful, however few its lines.
pub const MEANINGFUL_COMMIT_FLOOR: u64 = 3;

/// Weighted operational ownership by current file path.
#[derive(Debug, Clone, PartialEq, Eq)]
pub struct OperationalOwnershipSnapshot {
    pub by_file: Vec<OperationalFileOwnership>,
}

/// The visible owners of one file, the largest share first, and the share of all others.
#[derive(Debug, Clone, PartialEq, Eq)]
pub struct OperationalFileOwnership {
    pub path: String,
    pub owners: Vec<OperationalOwnerShare>,
    pub others_share: Real,
}

/// One owner's share of a file; the share is printed as a percentage with two decimals.
#[derive(Debug, Clone, PartialEq, Eq)]
pub struct OperationalOwnerShare {
    pub author: String,
    pub meaningful_commits: u64,
    pub effective_lines: Real,
    pub score: Real,
    pub share: Real,
}

/// Lines that someone changed in a file: how many, in a commit that touches how many
/// files, and how long before the head.
#[derive(Debug, Clone, Copy, PartialEq, Eq, Structural)]
pub struct LineContribution {
    pub changed_lines: u64,
    pub touched_files: u64,
    pub age_seconds: u64,
}

/// What an author changed in a file.
#[derive(Debug, Clone, PartialEq, Eq)]
pub struct AuthorContributions {
    pub author: String,
    /// In how many commits.
    pub meaningful_commits: u64,
    /// In the order of the changes.
    pub lines: Vec<LineContribution>,
}

/// What was changed in a file, by author.
#[derive(Debug, Clone, PartialEq, Eq)]
pub struct PathContributions {
    pub path: String,
    pub authors: Vec<AuthorContributions>,
}

/// A change that counts.
#[derive(Debug, Clone, PartialEq, Eq)]
pub struct Contribution {
    pub author: String,
    pub commit_id: String,
    pub lines: LineContribution,
}

impl DeepView for LineContribution {
    type V = LineContribution;

    open spec fn deep_view(&self) -> LineContribution {
        *self
    }
}

/// What [`OperationalOwnershipSnapshot`] stands for.
#[verifier::ext_equal]
pub struct OperationalOwnershipSnapshotView {
    pub by_file: Seq<OperationalFileOwnershipView>,
}

impl DeepView for OperationalOwnershipSnapshot {
    type V = OperationalOwnershipSnapshotView;

    open spec fn deep_view(&self) -> OperationalOwnershipSnapshotView {
        OperationalOwnershipSnapshotView {
            by_file: self.by_file.deep_view(),
        }
    }
}

/// What [`OperationalFileOwnership`] stands for.
#[verifier::ext_equal]
pub struct OperationalFileOwnershipView {
    pub path: Seq<char>,
    pub owners: Seq<OperationalOwnerShareView>,
    pub others_share: RealView,
}

impl DeepView for OperationalFileOwnership {
    type V = OperationalFileOwnershipView;

    open spec fn deep_view(&self) -> OperationalFileOwnershipView {
        OperationalFileOwnershipView {
            path: self.path@,
            owners: self.owners.deep_view(),
            others_share: self.others_share.deep_view(),
        }
    }
}

/// What [`OperationalOwnerShare`] stands for.
#[verifier::ext_equal]
pub struct OperationalOwnerShareView {
    pub author: Seq<char>,
    pub meaningful_commits: u64,
    pub effective_lines: RealView,
    pub score: RealView,
    pub share: RealView,
}

impl DeepView for OperationalOwnerShare {
    type V = OperationalOwnerShareView;

    open spec fn deep_view(&self) -> OperationalOwnerShareView {
        OperationalOwnerShareView {
            author: self.author@,
            meaningful_commits: self.meaningful_commits,
            effective_lines: self.effective_lines.deep_view(),
            score: self.score.deep_view(),
            share: self.share.deep_view(),
        }
    }
}

/// What [`AuthorContributions`] stands for.
#[verifier::ext_equal]
pub struct AuthorContributionsView {
    pub author: Seq<char>,
    pub meaningful_commits: u64,
    pub lines: Seq<LineContribution>,
}

impl DeepView for AuthorContributions {
    type V = AuthorContributionsView;

    open spec fn deep_view(&self) -> AuthorContributionsView {
        AuthorContributionsView {
            author: self.author@,
            meaningful_commits: self.meaningful_commits,
            lines: self.lines.deep_view(),
        }
    }
}

/// What [`PathContributions`] stands for.
#[verifier::ext_equal]
pub struct PathContributionsView {
    pub path: Seq<char>,
    pub authors: Seq<AuthorContributionsView>,
}

impl DeepView for PathContributions {
    type V = PathContributionsView;

    open spec fn deep_view(&self) -> PathContributionsView {
        PathContributionsView {
            path: self.path@,
            authors: self.authors.deep_view(),
        }
    }
}

/// What [`Contribution`] stands for.
#[verifier::ext_equal]
pub struct ContributionView {
    pub author: Seq<char>,
    pub commit_id: Seq<char>,
    pub lines: LineContribution,
}

impl DeepView for Contribution {
    type V = ContributionView;

    open spec fn deep_view(&self) -> ContributionView {
        ContributionView {
            author: self.author@,
            commit_id: self.commit_id@,
            lines: self.lines,
        }
    }
}

impl Ordered for OperationalOwnerShare {
    /// The largest share first, then the largest score, then by author.
    open spec fn key(v: OperationalOwnerShareView) -> Seq<KeyPart> {
        seq![
            KeyPart::Number(-(measure::total_place(v.share.bits) as int)),
            KeyPart::Number(-(measure::total_place(v.score.bits) as int)),
            KeyPart::Text(v.author),
        ]
    }

    fn comes_before(&self, other: &Self) -> (r: bool) {
        proof {
            reveal_with_fuel(order::key_lt_from, 4);
        }
        if measure::total_rank(other.share.bits) < measure::total_rank(self.share.bits) {
            return true;
        }
        if measure::total_rank(self.share.bits) < measure::total_rank(other.share.bits) {
            return false;
        }
        if measure::total_rank(other.score.bits) < measure::total_rank(self.score.bits) {
            return true;
        }
        if measure::total_rank(self.score.bits) < measure::total_rank(other.score.bits) {
            return false;
        }
        text::precedes(self.author.as_str(), other.author.as_str())
    }
}

/// The number of lines that a change adds or deletes, as far as it can be counted.
pub open spec fn changed_lines(change: GitFileChangeView) -> u64 {
    if change.added_lines + change.deleted_lines > u64::MAX {
        u64::MAX
    } else {
        (change.added_lines + change.deleted_lines) as u64
    }
}

/// The files that a commit touches.
pub open spec fn paths_in_commit(changes: Seq<GitFileChangeView>, commit_id: Seq<char>) -> Set<
    Seq<char>,
>
    decreases changes.len(),
{
    if changes.len() == 0 {
        Set::empty()
    } else {
        let before = paths_in_commit(changes.drop_last(), commit_id);
        if changes.last().commit_id == commit_id {
            before.insert(changes.last().path)
        } else {
            before
        }
    }
}

/// How many seconds before the head a commit was made, as far as that can be counted.
pub open spec fn age_of(head_commit_time: i64, commit_time: i64) -> u64 {
    let age = head_commit_time - commit_time;
    if age < 0 {
        0
    } else if age > i64::MAX {
        i64::MAX as u64
    } else {
        age as u64
    }
}

/// What a change contributes.
pub open spec fn contribution_of(
    all: Seq<GitFileChangeView>,
    change: GitFileChangeView,
    head_commit_time: i64,
) -> ContributionView {
    ContributionView {
        author: change.author,
        commit_id: change.commit_id,
        lines: LineContribution {
            changed_lines: changed_lines(change),
            touched_files: paths_in_commit(all, change.commit_id).len() as u64,
            age_seconds: age_of(head_commit_time, change.commit_time),
        },
    }
}

/// What `changes` contribute to a file: those that change lines of it.
pub open spec fn contributions_to(
    all: Seq<GitFileChangeView>,
    changes: Seq<GitFileChangeView>,
    head_commit_time: i64,
    path: Seq<char>,
) -> Seq<ContributionView>
    decreases changes.len(),
{
    if changes.len() == 0 {
        Seq::empty()
    } else {
        let before = contributions_to(all, changes.drop_last(), head_commit_time, path);
        let change = changes.last();
        if change.path == path && changed_lines(change) > 0 {
            before.push(contribution_of(all, change, head_commit_time))
        } else {
            before
        }
    }
}

/// The files that `changes` contribute to.
pub open spec fn contributed_paths(changes: Seq<GitFileChangeView>) -> Set<Seq<char>>
    decreases changes.len(),
{
    if changes.len() == 0 {
        Set::empty()
    } else {
        let before = contributed_paths(changes.drop_last());
        if changed_lines(changes.last()) > 0 {
            before.insert(changes.last().path)
        } else {
            before
        }
    }
}

/// Those of the contributions that an author made.
pub open spec fn made_by(contributions: Seq<ContributionView>, author: Seq<char>) -> Seq<
    ContributionView,
>
    decreases contributions.len(),
{
    if contributions.len() == 0 {
        Seq::empty()
    } else {
        let before = made_by(contributions.drop_last(), author);
        if contributions.last().author == author {
            before.push(contributions.last())
        } else {
            before
        }
    }
}

/// Who made contributions.
pub open spec fn authors_of(contributions: Seq<ContributionView>) -> Set<Seq<char>>
    decreases contributions.len(),
{
    if contributions.len() == 0 {
        Set::empty()
    } else {
        authors_of(contributions.drop_last()).insert(contributions.last().author)
    }
}

/// The commits that contributions are in.
pub open spec fn commits_of(contributions: Seq<ContributionView>) -> Set<Seq<char>>
    decreases contributions.len(),
{
    if contributions.len() == 0 {
        Set::empty()
    } else {
        commits_of(contributions.drop_last()).insert(contributions.last().commit_id)
    }
}

/// The lines of contributions, in order.
pub open spec fn lines_of(contributions: Seq<ContributionView>) -> Seq<LineContribution> {
    Seq::new(contributions.len(), |i: int| contributions[i].lines)
}

/// What an author changed in a file.
pub open spec fn author_summary(
    contributions: Seq<ContributionView>,
    author: Seq<char>,
) -> AuthorContributionsView {
    let own = made_by(contributions, author);
    AuthorContributionsView {
        author,
        meaningful_commits: commits_of(own).len() as u64,
        lines: lines_of(own),
    }
}

/// What was changed in a file, by ascending author.
pub open spec fn path_summary(
    path: Seq<char>,
    contributions: Seq<ContributionView>,
) -> PathContributionsView {
    let authors = table::listing(authors_of(contributions));
    PathContributionsView {
        path,
        authors: Seq::new(authors.len(), |i: int| author_summary(contributions, authors[i])),
    }
}

/// What was changed, by ascending path.
pub open spec fn contributions(
    changes: Seq<GitFileChangeView>,
    head_commit_time: i64,
) -> Seq<PathContributionsView> {
    let paths = table::listing(contributed_paths(changes));
    Seq::new(
        paths.len(),
        |i: int|
            path_summary(
                paths[i],
                contributions_to(changes, changes, head_commit_time, paths[i]),
            ),
    )
}

/// The contributions that belong to a key; none where the key is missing.
spec fn listed(map: TextMap<Vec<Contribution>>, key: Seq<char>) -> Seq<ContributionView> {
    if map@.dom().contains(key) {
        map@[key].deep_view()
    } else {
        Seq::empty()
    }
}

fn push_to(map: &mut TextMap<Vec<Contribution>>, key: &str, value: Contribution)
    requires
        old(map).wf(),
    ensures
        final(map).wf(),
        final(map)@.dom() == old(map)@.dom().insert(key@),
        listed(*final(map), key@) == listed(*old(map), key@).push(value.deep_view()),
        forall|k: Seq<char>|
            k != key@ ==> #[trigger] listed(*final(map), k) == listed(*old(map), k),
{
    let ghost before = map@;
    match map.position(key) {
        Some(i) => {
            let mut values = map.replace_at(i, Vec::new());
            let ghost earlier = values.deep_view();
            values.push(value);
            assert(values.deep_view() =~= earlier.push(value.deep_view()));
            let ghost grown = values;
            map.replace_at(i, values);
            assert(map@ =~= before.insert(key@, grown));
        },
        None => {
            let mut values: Vec<Contribution> = Vec::new();
            values.push(value);
            assert(values.deep_view() =~= Seq::<ContributionView>::empty().push(
                value.deep_view(),
            ));
            map.insert(key, values);
        },
    }
    assert(map@.dom() =~= before.dom().insert(key@));
}

fn touched_paths_by_commit(changes: &Vec<GitFileChange>) -> (out: TextRelation)
    ensures
        out.wf(),
        forall|id: Seq<char>| #[trigger]
            out.members(id) == paths_in_commit(changes.deep_view(), id),
{
    let ghost all = changes.deep_view();
    let mut out = TextRelation::new();
    let mut i: usize = 0;
    while i < changes.len()
        invariant
            i <= changes.len(),
            all == changes.deep_view(),
            out.wf(),
            forall|id: Seq<char>| #[trigger]
                out.members(id) == paths_in_commit(all.take(i as int), id),
        decreases changes.len() - i,
    {
        assert(all.take(i + 1).drop_last() =~= all.take(i as int));
        assert(all.take(i + 1).last() == changes@[i as int].deep_view());
        out.add(changes[i].commit_id.as_str(), changes[i].path.as_str());
        i = i + 1;
    }
    assert(all.take(i as int) =~= all);
    out
}

fn count_changed_lines(change: &GitFileChange) -> (n: u64)
    ensures
        n == changed_lines(change.deep_view()),
{
    if change.added_lines > u64::MAX - change.deleted_lines {
        u64::MAX
    } else {
        change.added_lines + change.deleted_lines
    }
}

fn age_in_seconds(head_commit_time: i64, commit_time: i64) -> (n: u64)
    ensures
        n == age_of(head_commit_time, commit_time),
{
    let age: i128 = head_commit_time as i128 - commit_time as i128;
    if age < 0 {
        0
    } else if age > i64::MAX as i128 {
        i64::MAX as u64
    } else {
        age as u64
    }
}

fn contributions_by_path(changes: &Vec<GitFileChange>, head_commit_time: i64) -> (out: TextMap<
    Vec<Contribution>,
>)
    ensures
        out.wf(),
        out@.dom() == contributed_paths(changes.deep_view()),
        forall|path: Seq<char>| #[trigger]
            listed(out, path) == contributions_to(
                changes.deep_view(),
                changes.deep_view(),
                head_commit_time,
                path,
            ),
{
    let ghost all = changes.deep_view();
    let touched = touched_paths_by_commit(changes);
    let mut out: TextMap<Vec<Contribution>> = TextMap::new();
    let mut i: usize = 0;
    while i < changes.len()
        invariant
            i <= changes.len(),
            all == changes.deep_view(),
            touched.wf(),
            forall|id: Seq<char>| #[trigger] touched.members(id) == paths_in_commit(all, id),
            out.wf(),
            out@.dom() == contributed_paths(all.take(i as int)),
            forall|path: Seq<char>| #[trigger]
                listed(out, path) == contributions_to(
                    all,
                    all.take(i as int),
                    head_commit_time,
                    path,
                ),
        decreases changes.len() - i,
    {
        let change = &changes[i];
        assert(all.take(i + 1).drop_last() =~= all.take(i as int));
        assert(all.take(i + 1).last() == change.deep_view());
        let lines: u64 = count_changed_lines(change);
        if lines > 0 {
            let files: usize = touched.count(change.commit_id.as_str());
            let value = Contribution {
                author: change.author.clone(),
                commit_id: change.commit_id.clone(),
                lines: LineContribution {
                    changed_lines: lines,
                    touched_files: files as u64,
                    age_seconds: age_in_seconds(head_commit_time, change.commit_time),
                },
            };
            assert(value.deep_view() == contribution_of(
                all,
                change.deep_view(),
                head_commit_time,
            ));
            push_to(&mut out, change.path.as_str(), value);
        }
        i = i + 1;
    }
    assert(all.take(i as int) =~= all);
    out
}

fn contributions_by_author(values: &Vec<Contribution>) -> (out: TextMap<Vec<Contribution>>)
    ensures
        out.wf(),
        out@.dom() == authors_of(values.deep_view()),
        forall|author: Seq<char>| #[trigger]
            listed(out, author) == made_by(values.deep_view(), author),
{
    let ghost all = values.deep_view();
    let mut out: TextMap<Vec<Contribution>> = TextMap::new();
    let mut i: usize = 0;
    while i < values.len()
        invariant
            i <= values.len(),
            all == values.deep_view(),
            out.wf(),
            out@.dom() == authors_of(all.take(i as int)),
            forall|author: Seq<char>| #[trigger]
                listed(out, author) == made_by(all.take(i as int), author),
        decreases values.len() - i,
    {
        let value = &values[i];
        assert(all.take(i + 1).drop_last() =~= all.take(i as int));
        assert(all.take(i + 1).last() == value.deep_view());
        let copy = Contribution {
            author: value.author.clone(),
            commit_id: value.commit_id.clone(),
            lines: value.lines,
        };
        assert(copy.deep_view() == value.deep_view());
        push_to(&mut out, value.author.as_str(), copy);
        i = i + 1;
    }
    assert(all.take(i as int) =~= all);
    out
}

fn summarize_author(author: &str, own: &Vec<Contribution>) -> (out: AuthorContributions)
    ensures
        out.deep_view() == (AuthorContributionsView {
            author: author@,
            meaningful_commits: commits_of(own.deep_view()).len() as u64,
            lines: lines_of(own.deep_view()),
        }),
{
    let ghost all = own.deep_view();
    let mut commits = TextSet::new();
    let mut lines: Vec<LineContribution> = Vec::new();
    let mut i: usize = 0;
    assert(lines.deep_view() =~= lines_of(all.take(0)));
    while i < own.len()
        invariant
            i <= own.len(),
            all == own.deep_view(),
            commits.wf(),
            commits@ == commits_of(all.take(i as int)),
            lines.deep_view() == lines_of(all.take(i as int)),
        decreases own.len() - i,
    {
        let value = &own[i];
        assert(all.take(i + 1).drop_last() =~= all.take(i as int));
        assert(all.take(i + 1).last() == value.deep_view());
        let ghost before = lines.deep_view();
        commits.insert(value.commit_id.as_str());
        lines.push(value.lines);
        assert(lines.deep_view() =~= before.push(value.lines));
        i = i + 1;
        assert(lines.deep_view() =~= lines_of(all.take(i as int)));
    }
    assert(all.take(i as int) =~= all);
    AuthorContributions {
        author: author.to_string(),
        meaningful_commits: commits.len() as u64,
        lines,
    }
}

fn summarize_path(path: &str, values: &Vec<Contribution>) -> (out: PathContributions)
    ensures
        out.deep_view() == path_summary(path@, values.deep_view()),
{
    let ghost all = values.deep_view();
    let ghost expected = path_summary(path@, all).authors;
    let by_author = contributions_by_author(values);
    let ghost names = by_author.keys.deep_view();
    proof {
        by_author.keys_are_dom();
        table::listing_of_ascending(names);
    }
    let mut authors: Vec<AuthorContributions> = Vec::new();
    let mut i: usize = 0;
    assert(authors.deep_view() =~= expected.take(0));
    while i < by_author.keys.len()
        invariant
            i <= by_author.keys.len(),
            by_author.wf(),
            names == by_author.keys.deep_view(),
            names == table::listing(authors_of(all)),
            expected == path_summary(path@, all).authors,
            forall|author: Seq<char>| #[trigger]
                listed(by_author, author) == made_by(all, author),
            authors.deep_view() == expected.take(i as int),
        decreases by_author.keys.len() - i,
    {
        let ghost before = authors.deep_view();
        proof {
            by_author.at_index(i as int);
            assert(listed(by_author, names[i as int]) == made_by(all, names[i as int]));
        }
        let one = summarize_author(by_author.keys[i].as_str(), &by_author.values[i]);
        assert(one.deep_view() == author_summary(all, names[i as int]));
        authors.push(one);
        assert(authors.deep_view() =~= before.push(one.deep_view()));
        i = i + 1;
        assert(authors.deep_view() =~= expected.take(i as int));
    }
    assert(expected.take(i as int) =~= expected);
    PathContributions { path: path.to_string(), authors }
}

/// What was changed, by ascending path and author. Changes that change no lines do not
/// count.
pub fn contributions_from_changes(changes: &Vec<GitFileChange>, head_commit_time: i64) -> (out: Vec<
    PathContributions,
>)
    ensures
        out.deep_view() == contributions(changes.deep_view(), head_commit_time),
{
    let ghost all = changes.deep_view();
    let ghost expected = contributions(all, head_commit_time);
    let by_path = contributions_by_path(changes, head_commit_time);
    let ghost paths = by_path.keys.deep_view();
    proof {
        by_path.keys_are_dom();
        table::listing_of_ascending(paths);
    }
    let mut out: Vec<PathContributions> = Vec::new();
    let mut i: usize = 0;
    assert(out.deep_view() =~= expected.take(0));
    while i < by_path.keys.len()
        invariant
            i <= by_path.keys.len(),
            by_path.wf(),
            paths == by_path.keys.deep_view(),
            paths == table::listing(contributed_paths(all)),
            expected == contributions(all, head_commit_time),
            forall|path: Seq<char>| #[trigger]
                listed(by_path, path) == contributions_to(all, all, head_commit_time, path),
            out.deep_view() == expected.take(i as int),
        decreases by_path.keys.len() - i,
    {
        let ghost before = out.deep_view();
        proof {
            by_path.at_index(i as int);
            assert(listed(by_path, paths[i as int]) == contributions_to(
                all,
                all,
                head_commit_time,
                paths[i as int],
            ));
        }
        let one = summarize_path(by_path.keys[i].as_str(), &by_path.values[i]);
        assert(one.deep_view() == expected[i as int]);
        out.push(one);
        assert(out.deep_view() =~= before.push(one.deep_view()));
        i = i + 1;
        assert(out.deep_view() =~= expected.take(i as int));
    }
    assert(expected.take(i as int) =~= expected);
    out
}

/// Whether the owner at rank `rank`, counted from zero, may be shown: ranked among the
/// first or with enough of a share, and with enough lines or commits.
pub open spec fn is_eligible(owner: OperationalOwnerShareView, rank: int, line_floor: u64) -> bool {
    &&& rank < OWNER_DISPLAY_LIMIT || measure::is_at_least(
        owner.share.bits,
        OWNER_SHARE_THRESHOLD_BITS,
    )
    &&& measure::is_at_least(owner.effective_lines.bits, line_floor) || owner.meaningful_commits
        >= MEANINGFUL_COMMIT_FLOOR
}

/// Those of ranked owners that are shown.
pub open spec fn shown_owners(owners: Seq<OperationalOwnerShareView>, line_floor: u64) -> Seq<
    OperationalOwnerShareView,
>
    decreases owners.len(),
{
    if owners.len() == 0 {
        Seq::empty()
    } else {
        let before = shown_owners(owners.drop_last(), line_floor);
        if before.len() < OWNER_DISPLAY_LIMIT && is_eligible(
            owners.last(),
            owners.len() - 1,
            line_floor,
        ) {
            before.push(owners.last())
        } else {
            before
        }
    }
}

/// Those of ranked owners that are not shown.
pub open spec fn other_owners(owners: Seq<OperationalOwnerShareView>, line_floor: u64) -> Seq<
    OperationalOwnerShareView,
>
    decreases owners.len(),
{
    if owners.len() == 0 {
        Seq::empty()
    } else {
        let before = other_owners(owners.drop_last(), line_floor);
        if shown_owners(owners.drop_last(), line_floor).len() < OWNER_DISPLAY_LIMIT && is_eligible(
            owners.last(),
            owners.len() - 1,
            line_floor,
        ) {
            before
        } else {
            before.push(owners.last())
        }
    }
}

/// Ranks owners, and parts those that are shown from the others; `line_floor` are the bits
/// of the number of lines from which on a contribution is meaningful.
pub fn select_owners(owners: Vec<OperationalOwnerShare>, line_floor: u64) -> (out: (
    Vec<OperationalOwnerShare>,
    Vec<OperationalOwnerShare>,
))
    ensures
        ({
            let ranked = order::sorted_by(
                owners.deep_view(),
                order::by_key::<OperationalOwnerShare>(),
            );
            out.0.deep_view() == shown_owners(ranked, line_floor) && out.1.deep_view()
                == other_owners(ranked, line_floor)
        }),
{
    let ranked = order::sort(owners);
    let ghost all = ranked.deep_view();
    let mut shown: Vec<OperationalOwnerShare> = Vec::new();
    let mut others: Vec<OperationalOwnerShare> = Vec::new();
    let mut rank: usize = 0;
    let count: usize = ranked.len();
    assert(shown.deep_view() =~= shown_owners(all.take(0), line_floor));
    assert(others.deep_view() =~= other_owners(all.take(0), line_floor));
    for owner in it: ranked
        invariant
            it.seq() == ranked@,
            all == ranked.deep_view(),
            rank == it.index(),
            count == ranked.len(),
            shown.deep_view() == shown_owners(all.take(rank as int), line_floor),
            others.deep_view() == other_owners(all.take(rank as int), line_floor),
    {
        assert(all.take(rank + 1).drop_last() =~= all.take(rank as int));
        assert(all.take(rank + 1).last() == owner.deep_view());
        let by_rank_or_share = rank < OWNER_DISPLAY_LIMIT || measure::at_least(
            owner.share.bits,
            OWNER_SHARE_THRESHOLD_BITS,
        );
        let meaningful = measure::at_least(owner.effective_lines.bits, line_floor)
            || owner.meaningful_commits >= MEANINGFUL_COMMIT_FLOOR;
        if shown.len() < OWNER_DISPLAY_LIMIT && by_rank_or_share && meaningful {
            let ghost before = shown.deep_view();
            shown.push(owner);
            assert(shown.deep_view() =~= before.push(owner.deep_view()));
        } else {
            let ghost before = others.deep_view();
            others.push(owner);
            assert(others.deep_view() =~= before.push(owner.deep_view()));
        }
        rank = rank + 1;
    }
    assert(all.take(all.len() as int) =~= all);
    (shown, others)
}

/// No more owners are shown than the limit, and every owner is either shown or among the
/// others.
pub proof fn owners_are_shown_or_not(owners: Seq<OperationalOwnerShareView>, line_floor: u64)
    ensures
        shown_owners(owners, line_floor).len() <= OWNER_DISPLAY_LIMIT,
        shown_owners(owners, line_floor).to_multiset().add(
            other_owners(owners, line_floor).to_multiset(),
        ) == owners.to_multiset(),
    decreases owners.len(),
{
    broadcast use vstd::seq_lib::group_to_multiset_ensures;

    if owners.len() > 0 {
        owners_are_shown_or_not(owners.drop_last(), line_floor);
        assert(owners =~= owners.drop_last().push(owners.last()));
    }
    assert(shown_owners(owners, line_floor).to_multiset().add(
        other_owners(owners, line_floor).to_multiset(),
    ) =~= owners.to_multiset());
}

} // verus!
