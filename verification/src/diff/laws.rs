//! What holds of every diff.

use vstd::prelude::*;

use crate::commands;
use crate::diff;
use crate::diff::risk;
use crate::diff::{
    DeltaContentView, DeltaFileView, DeltaLinesView, DeltaPathView, DeltaStatus, DiffChangeKind,
    DiffChangedFile, DiffChangedFileView, DiffContextSide, DiffContextSkip, DiffContextSkipReason,
    DiffReportView, FileDeltaView,
};
use crate::order;
use crate::scan::FileRecordView;
use crate::scoring::RankedHotspotScoreView;
use crate::text;

verus! {

/// Whether `shown` is `path` with `/` wherever it has `\`.
pub open spec fn is_slashed(shown: Seq<char>, path: Seq<char>) -> bool {
    &&& shown.len() == path.len()
    &&& forall|i: int|
        0 <= i < path.len() ==> #[trigger] shown[i] == (if path[i] == '\\' {
            '/'
        } else {
            path[i]
        })
}

/// Whether one side of a change weighs `n` tokens: a token for every four bytes of text, the last
/// of them maybe with fewer; what is no text, or is not there, weighs nothing.
pub open spec fn weighs(file: DeltaFileView, n: int) -> bool {
    match file.content {
        DeltaContentView::Bytes(bytes) if file.present && vstd::utf8::valid_utf8(bytes) => {
            bytes.len() <= 4 * n < bytes.len() + 4
        },
        _ => n == 0,
    }
}

/// Whether a side is there, and left out of the count for a reason.
pub open spec fn is_skipped(file: DeltaFileView, reason: DiffContextSkipReason) -> bool {
    file.present && match (file.content, reason) {
        (DeltaContentView::Binary, DiffContextSkipReason::Binary) => true,
        (DeltaContentView::Bytes(bytes), DiffContextSkipReason::InvalidUtf8) => {
            !vstd::utf8::valid_utf8(bytes)
        },
        _ => false,
    }
}

/// Whether the bytes of a side fit into memory.
pub open spec fn fits(file: DeltaFileView) -> bool {
    file.content matches DeltaContentView::Bytes(bytes) ==> bytes.len() <= isize::MAX
}

proof fn replaced_is_slashed(path: Seq<char>)
    ensures
        is_slashed(text::replaced(path, '\\', '/'), path),
    decreases path.len(),
{
}

/// A changed file has the lines that its delta counts.
pub proof fn changed_files_have_the_lines_of_their_delta(
    delta: FileDeltaView,
    commit_id: Seq<char>,
)
    ensures
        diff::changed_file(delta, commit_id) matches Ok(Some(file)) ==> delta.lines == (
        DeltaLinesView::Counted { added: file.added_lines, deleted: file.deleted_lines }),
{
}

/// A changed file is what became of the delta, and stands at the path of the side that is left:
/// the new one, or the old one where the file is deleted.
pub proof fn changed_files_are_what_became_of_their_delta(
    delta: FileDeltaView,
    commit_id: Seq<char>,
)
    ensures
        diff::changed_file(delta, commit_id) matches Ok(Some(file)) ==> {
            &&& (file.change_kind == DiffChangeKind::Added) == (delta.status == DeltaStatus::Added)
            &&& (file.change_kind == DiffChangeKind::Modified) == (delta.status
                == DeltaStatus::Modified)
            &&& (file.change_kind == DiffChangeKind::Deleted) == (delta.status
                == DeltaStatus::Deleted)
            &&& (file.change_kind == DiffChangeKind::Renamed) == (delta.status
                == DeltaStatus::Renamed)
            &&& (file.change_kind == DiffChangeKind::Copied) == (delta.status
                == DeltaStatus::Copied)
            &&& (file.change_kind == DiffChangeKind::TypeChanged) == (delta.status
                == DeltaStatus::Typechange)
            &&& delta.status == DeltaStatus::Deleted ==> file.old_path == Some(file.path)
            &&& delta.status != DeltaStatus::Deleted ==> file.new_path == Some(file.path)
            &&& match (delta.old.present, delta.old.path) {
                (true, DeltaPathView::Text(path)) => file.old_path matches Some(shown)
                    && is_slashed(shown, path),
                _ => file.old_path is None,
            }
            &&& match (delta.new.present, delta.new.path) {
                (true, DeltaPathView::Text(path)) => file.new_path matches Some(shown)
                    && is_slashed(shown, path),
                _ => file.new_path is None,
            }
        },
{
    if let DeltaPathView::Text(path) = delta.old.path {
        replaced_is_slashed(path);
    }
    if let DeltaPathView::Text(path) = delta.new.path {
        replaced_is_slashed(path);
    }
}

/// A changed file grows the context by what its new side weighs more than its old one, and says
/// which sides are left out of that, and why.
pub proof fn changed_files_grow_the_context(delta: FileDeltaView, commit_id: Seq<char>)
    requires
        fits(delta.old),
        fits(delta.new),
    ensures
        diff::changed_file(delta, commit_id) matches Ok(Some(file)) ==> {
            &&& exists|old: int, new: int| #[trigger]
                weighs(delta.old, old) && #[trigger] weighs(delta.new, new)
                    && file.context_token_delta == new - old
            &&& forall|reason: DiffContextSkipReason|
                file.skipped_context.contains(
                    DiffContextSkip { side: DiffContextSide::Old, reason },
                ) <==> #[trigger] is_skipped(delta.old, reason)
            &&& forall|reason: DiffContextSkipReason|
                file.skipped_context.contains(
                    DiffContextSkip { side: DiffContextSide::New, reason },
                ) <==> #[trigger] is_skipped(delta.new, reason)
        },
{
    if let Ok(Some(file)) = diff::changed_file(delta, commit_id) {
        let old = diff::side_tokens(delta.old);
        let new = diff::side_tokens(delta.new);
        assert(weighs(delta.old, diff::counted(old)));
        assert(weighs(delta.new, diff::counted(new)));
        let before = diff::skip_of(DiffContextSide::Old, old);
        let after = diff::skip_of(DiffContextSide::New, new);
        assert forall|reason: DiffContextSkipReason|
            file.skipped_context.contains(
                DiffContextSkip { side: DiffContextSide::Old, reason },
            ) <==> #[trigger] is_skipped(delta.old, reason) by {
            let skip = DiffContextSkip { side: DiffContextSide::Old, reason };
            if is_skipped(delta.old, reason) {
                assert((before + after)[0] == skip);
            }
        }
        assert forall|reason: DiffContextSkipReason|
            file.skipped_context.contains(
                DiffContextSkip { side: DiffContextSide::New, reason },
            ) <==> #[trigger] is_skipped(delta.new, reason) by {
            let skip = DiffContextSkip { side: DiffContextSide::New, reason };
            if is_skipped(delta.new, reason) {
                assert((before + after)[before.len() as int] == skip);
            }
        }
    }
}

/// Whether a side is there, with a path and bytes that can be read.
pub open spec fn is_readable(file: DeltaFileView) -> bool {
    file.present && file.path is Text && !(file.content is NotLoaded)
}

/// A delta whose sides can be read and whose lines are counted gives a changed file, unless nothing
/// became of it that a diff tells of.
pub proof fn readable_deltas_give_changed_files(delta: FileDeltaView, commit_id: Seq<char>)
    requires
        is_readable(delta.old),
        is_readable(delta.new),
        delta.lines is Counted,
    ensures
        match diff::changed_file(delta, commit_id) {
            Ok(Some(_)) => true,
            Ok(None) => {
                ||| delta.status == DeltaStatus::Unmodified
                ||| delta.status == DeltaStatus::Ignored
                ||| delta.status == DeltaStatus::Untracked
                ||| delta.status == DeltaStatus::Unreadable
                ||| delta.status == DeltaStatus::Conflicted
            },
            Err(_) => false,
        },
{
}

proof fn gathered_files(deltas: Seq<FileDeltaView>, commit_id: Seq<char>, file: DiffChangedFileView)
    ensures
        diff::gathered(deltas, commit_id) matches Ok(files) ==> (files.contains(file)
            <==> exists|i: int|
            0 <= i < deltas.len() && diff::changed_file(#[trigger] deltas[i], commit_id) == Ok::<
                Option<DiffChangedFileView>,
                diff::DiffErrorView,
            >(Some(file))),
        diff::gathered(deltas, commit_id) is Err <==> exists|i: int|
            0 <= i < deltas.len() && diff::changed_file(#[trigger] deltas[i], commit_id) is Err,
    decreases deltas.len(),
{
    if deltas.len() > 0 {
        let front = deltas.drop_last();
        let last = deltas.last();
        gathered_files(front, commit_id, file);
        assert(deltas[deltas.len() - 1] == last);
        assert forall|i: int| 0 <= i < front.len() implies #[trigger] front[i] == deltas[i] by {}
        if let Ok(before) = diff::gathered(front, commit_id) {
            if let Ok(Some(one)) = diff::changed_file(last, commit_id) {
                let after = before.push(one);
                assert(after[before.len() as int] == one);
                if before.contains(file) {
                    let k = choose|k: int| 0 <= k < before.len() && before[k] == file;
                    assert(after[k] == file);
                }
                if after.contains(file) && file != one {
                    let k = choose|k: int| 0 <= k < after.len() && after[k] == file;
                    assert(before[k] == file);
                }
            }
            if exists|i: int|
                0 <= i < deltas.len() && diff::changed_file(#[trigger] deltas[i], commit_id)
                    == Ok::<Option<DiffChangedFileView>, diff::DiffErrorView>(Some(file)) {
                let i = choose|i: int|
                    0 <= i < deltas.len() && diff::changed_file(#[trigger] deltas[i], commit_id)
                        == Ok::<Option<DiffChangedFileView>, diff::DiffErrorView>(Some(file));
                if i < front.len() {
                    assert(front[i] == deltas[i]);
                }
            }
        }
        if exists|i: int|
            0 <= i < deltas.len() && diff::changed_file(#[trigger] deltas[i], commit_id) is Err {
            let i = choose|i: int|
                0 <= i < deltas.len() && diff::changed_file(#[trigger] deltas[i], commit_id) is Err;
            if i < front.len() {
                assert(front[i] == deltas[i]);
            }
        }
    }
}

/// A diff reports the changed files of its deltas and no others, by ascending paths; it fails
/// exactly where one of them does.
pub proof fn every_changed_file_is_reported(deltas: Seq<FileDeltaView>, commit_id: Seq<char>)
    ensures
        match diff::changed_files(deltas, commit_id) {
            Ok(files) => {
                &&& forall|file: DiffChangedFileView| #[trigger]
                    files.contains(file) <==> exists|i: int|
                        0 <= i < deltas.len() && diff::changed_file(#[trigger] deltas[i], commit_id)
                            == Ok::<Option<DiffChangedFileView>, diff::DiffErrorView>(Some(file))
                &&& forall|i: int, j: int|
                    0 <= i < j < files.len() ==> !text::text_lt(
                        (#[trigger] files[j]).path,
                        (#[trigger] files[i]).path,
                    )
            },
            Err(_) => exists|i: int|
                0 <= i < deltas.len() && diff::changed_file(#[trigger] deltas[i], commit_id) is Err,
        },
{
    let lt = order::by_key::<DiffChangedFile>();
    match diff::gathered(deltas, commit_id) {
        Ok(found) => {
            let files = order::sorted_by(found, lt);
            order::by_key_is_strict_weak::<DiffChangedFile>();
            order::sorted_by_permutes(found, lt);
            order::sorted_by_is_sorted(found, lt);
            assert forall|file: DiffChangedFileView| #[trigger]
                files.contains(file) <==> exists|i: int|
                    0 <= i < deltas.len() && diff::changed_file(#[trigger] deltas[i], commit_id)
                        == Ok::<Option<DiffChangedFileView>, diff::DiffErrorView>(Some(file)) by {
                gathered_files(deltas, commit_id, file);
                if files.contains(file) {
                    order::contains_by_multiset(files, found, file);
                }
                if found.contains(file) {
                    order::contains_by_multiset(found, files, file);
                }
            }
            assert forall|i: int, j: int| 0 <= i < j < files.len() implies !text::text_lt(
                (#[trigger] files[j]).path,
                (#[trigger] files[i]).path,
            ) by {
                let (a, b) = (files[i], files[j]);
                assert(!lt(b, a));
                let (x, y) = (
                    <DiffChangedFile as order::Ordered>::key(b),
                    <DiffChangedFile as order::Ordered>::key(a),
                );
                assert(lt(b, a) == order::key_lt_from(x, y, 0));
                assert(x[0] == order::KeyPart::Text(b.path) && y[0] == order::KeyPart::Text(a.path));
            }
        },
        Err(_) => {
            gathered_files(deltas, commit_id, arbitrary());
        },
    }
}

/// The totals of no files are zero, and a further file raises each of them by its own number.
pub proof fn totals_add_up(files: Seq<DiffChangedFileView>, file: DiffChangedFileView)
    requires
        diff::totals_fit(files),
        diff::totals_fit(files.push(file)),
        files.len() < u64::MAX,
    ensures
        ({
            let none = diff::summary_of(Seq::empty());
            let before = diff::summary_of(files);
            let after = diff::summary_of(files.push(file));
            &&& none.changed_files == 0 && none.added_lines == 0 && none.deleted_lines == 0
                && none.context_token_delta == 0
            &&& after.changed_files == before.changed_files + 1
            &&& after.added_lines == before.added_lines + file.added_lines
            &&& after.deleted_lines == before.deleted_lines + file.deleted_lines
            &&& after.context_token_delta == before.context_token_delta + file.context_token_delta
        }),
{
    let now = files.push(file);
    assert(now.drop_last() =~= files);
    assert(files.take(files.len() as int) =~= files);
    assert(now.take(now.len() as int) =~= now);
}

proof fn changed_path_is_of_a_file(files: Seq<DiffChangedFileView>, path: Seq<char>)
    ensures
        risk::changed_paths(files).contains(path) <==> exists|i: int|
            0 <= i < files.len() && (#[trigger] files[i]).path == path,
    decreases files.len(),
{
    if files.len() > 0 {
        let front = files.drop_last();
        changed_path_is_of_a_file(front, path);
        assert(files[files.len() - 1] == files.last());
        assert forall|i: int| 0 <= i < front.len() implies #[trigger] front[i] == files[i] by {}
        if exists|i: int| 0 <= i < files.len() && (#[trigger] files[i]).path == path {
            let i = choose|i: int| 0 <= i < files.len() && (#[trigger] files[i]).path == path;
            if i < front.len() {
                assert(front[i].path == path);
            }
        }
    }
}

proof fn scanned_path_is_of_a_file(files: Seq<FileRecordView>, path: Seq<char>)
    ensures
        commands::scanned_paths(files).contains(path) <==> exists|i: int|
            0 <= i < files.len() && (#[trigger] files[i]).path == path,
    decreases files.len(),
{
    if files.len() > 0 {
        let front = files.drop_last();
        scanned_path_is_of_a_file(front, path);
        assert(files[files.len() - 1] == files.last());
        assert forall|i: int| 0 <= i < front.len() implies #[trigger] front[i] == files[i] by {}
        if exists|i: int| 0 <= i < files.len() && (#[trigger] files[i]).path == path {
            let i = choose|i: int| 0 <= i < files.len() && (#[trigger] files[i]).path == path;
            if i < front.len() {
                assert(front[i].path == path);
            }
        }
    }
}

/// Whether a touched hotspot is a ranked score.
pub open spec fn is_of(hotspot: risk::TouchedHotspotView, ranked: RankedHotspotScoreView) -> bool {
    hotspot.rank == ranked.rank && hotspot.path == ranked.score.path && hotspot.score
        == ranked.score.value
}

proof fn touched_are_ranked(
    changed: Set<Seq<char>>,
    current: Set<Seq<char>>,
    ranked: Seq<RankedHotspotScoreView>,
    i: int,
) -> (k: int)
    requires
        0 <= i < risk::touched_of(changed, current, ranked).len(),
    ensures
        0 <= k < ranked.len(),
        is_of(risk::touched_of(changed, current, ranked)[i], ranked[k]),
        changed.contains(ranked[k].score.path),
        current.contains(ranked[k].score.path),
    decreases ranked.len(),
{
    let before = risk::touched_of(changed, current, ranked.drop_last());
    if i < before.len() {
        touched_are_ranked(changed, current, ranked.drop_last(), i)
    } else {
        ranked.len() - 1
    }
}

proof fn ranked_are_touched(
    changed: Set<Seq<char>>,
    current: Set<Seq<char>>,
    ranked: Seq<RankedHotspotScoreView>,
    k: int,
) -> (i: int)
    requires
        0 <= k < ranked.len(),
        changed.contains(ranked[k].score.path),
        current.contains(ranked[k].score.path),
    ensures
        0 <= i < risk::touched_of(changed, current, ranked).len(),
        is_of(risk::touched_of(changed, current, ranked)[i], ranked[k]),
    decreases ranked.len(),
{
    if k < ranked.len() - 1 {
        ranked_are_touched(changed, current, ranked.drop_last(), k)
    } else {
        risk::touched_of(changed, current, ranked).len() - 1
    }
}

/// Whether a path is that of a changed file, and of a file that is there.
pub open spec fn is_changed_and_there(
    changed: Seq<DiffChangedFileView>,
    files: Seq<FileRecordView>,
    path: Seq<char>,
) -> bool {
    &&& exists|i: int| 0 <= i < changed.len() && (#[trigger] changed[i]).path == path
    &&& exists|i: int| 0 <= i < files.len() && (#[trigger] files[i]).path == path
}

/// A hotspot that a diff touches is one of the first ten ranked scores, with its rank, and its file
/// is changed and still there.
pub proof fn touched_hotspots_are_changed_and_there(
    report: DiffReportView,
    files: Seq<FileRecordView>,
    ranked: Seq<RankedHotspotScoreView>,
    i: int,
) -> (k: int)
    requires
        0 <= i < risk::risk_of(report, files, ranked).summary.touched_hotspots.len(),
    ensures
        0 <= k < ranked.len() && k < 10,
        is_of(risk::risk_of(report, files, ranked).summary.touched_hotspots[i], ranked[k]),
        is_changed_and_there(report.changed_files, files, ranked[k].score.path),
{
    let first = risk::hotspots_of(ranked);
    let changed = risk::changed_paths(report.changed_files);
    let current = commands::scanned_paths(files);
    let k = touched_are_ranked(changed, current, first, i);
    assert(first[k] == ranked[k]);
    changed_path_is_of_a_file(report.changed_files, ranked[k].score.path);
    scanned_path_is_of_a_file(files, ranked[k].score.path);
    k
}

/// A diff touches each of the first ten ranked scores whose file is changed and still there.
pub proof fn changed_hotspots_are_touched(
    report: DiffReportView,
    files: Seq<FileRecordView>,
    ranked: Seq<RankedHotspotScoreView>,
    k: int,
) -> (i: int)
    requires
        0 <= k < ranked.len() && k < 10,
        is_changed_and_there(report.changed_files, files, ranked[k].score.path),
    ensures
        0 <= i < risk::risk_of(report, files, ranked).summary.touched_hotspots.len(),
        is_of(risk::risk_of(report, files, ranked).summary.touched_hotspots[i], ranked[k]),
{
    let first = risk::hotspots_of(ranked);
    let changed = risk::changed_paths(report.changed_files);
    let current = commands::scanned_paths(files);
    assert(first[k] == ranked[k]);
    changed_path_is_of_a_file(report.changed_files, ranked[k].score.path);
    scanned_path_is_of_a_file(files, ranked[k].score.path);
    ranked_are_touched(changed, current, first, k)
}

/// The risk of a diff counts the hotspots that it lists, and keeps the range, the files and the
/// totals of the diff.
pub proof fn risks_keep_the_totals(
    report: DiffReportView,
    files: Seq<FileRecordView>,
    ranked: Seq<RankedHotspotScoreView>,
)
    ensures
        ({
            let out = risk::risk_of(report, files, ranked);
            &&& out.summary.touched_hotspot_count == out.summary.touched_hotspots.len() <= 10
            &&& out.summary.changed_file_count == report.summary.changed_files
            &&& out.summary.context_token_delta == report.summary.context_token_delta
            &&& out.changed_files == report.changed_files
            &&& out.range == report.range
        }),
{
    touched_are_few(
        risk::changed_paths(report.changed_files),
        commands::scanned_paths(files),
        risk::hotspots_of(ranked),
    );
}

proof fn touched_are_few(
    changed: Set<Seq<char>>,
    current: Set<Seq<char>>,
    ranked: Seq<RankedHotspotScoreView>,
)
    ensures
        risk::touched_of(changed, current, ranked).len() <= ranked.len(),
    decreases ranked.len(),
{
    if ranked.len() > 0 {
        touched_are_few(changed, current, ranked.drop_last());
    }
}

} // verus!
