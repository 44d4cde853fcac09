//! What holds of every selection of scores.

use vstd::prelude::*;

use crate::scan::FileRecordView;
use crate::scoring;
use crate::scoring::{HotspotsOptions, RankedHotspotScoreView};

verus! {

/// Whether file `i` is at a path, and none behind it is.
pub open spec fn is_last_at(files: Seq<FileRecordView>, i: int, path: Seq<char>) -> bool {
    0 <= i < files.len() && files[i].path == path && !is_at(files.skip(i + 1), path)
}

/// Whether some file is at a path.
pub open spec fn is_at(files: Seq<FileRecordView>, path: Seq<char>) -> bool {
    files.map_values(|file: FileRecordView| file.path).contains(path)
}

/// Whether the options leave a file out.
pub open spec fn is_left_out(file: FileRecordView, options: HotspotsOptions) -> bool {
    (options.exclude_generated && file.is_generated) || (options.exclude_vendor && file.is_vendor)
}

proof fn last_files_flag(files: Seq<FileRecordView>, i: int, path: Seq<char>)
    requires
        is_last_at(files, i, path),
    ensures
        scoring::flags_of(files, path).is_generated == files[i].is_generated,
        scoring::flags_of(files, path).is_vendor == files[i].is_vendor,
    decreases files.len(),
{
    let last = files.len() - 1;
    let behind = files.skip(i + 1);
    let paths = behind.map_values(|file: FileRecordView| file.path);
    if i < last {
        assert(paths[last - i - 1] == files[last].path);
        let front = files.drop_last();
        let fewer = front.skip(i + 1).map_values(|file: FileRecordView| file.path);
        assert(!fewer.contains(path)) by {
            if fewer.contains(path) {
                let k = choose|k: int| 0 <= k < fewer.len() && fewer[k] == path;
                assert(paths[k] == fewer[k]);
            }
        }
        last_files_flag(front, i, path);
    }
}

/// What is selected are scores, in their order and no more than the limit; the last file at the
/// path of one of them is not left out.
pub proof fn selected_scores_are_not_left_out(
    ranked: Seq<RankedHotspotScoreView>,
    files: Seq<FileRecordView>,
    options: HotspotsOptions,
    k: int,
    f: int,
) -> (i: int)
    requires
        0 <= k < scoring::selected(ranked, files, options).len(),
        is_last_at(files, f, scoring::selected(ranked, files, options)[k].score.path),
    ensures
        k <= i < ranked.len(),
        k < options.limit,
        scoring::selected(ranked, files, options)[k] == ranked[i],
        !is_left_out(files[f], options),
    decreases ranked.len(),
{
    let front = ranked.drop_last();
    let before = scoring::selected(front, files, options);
    selections_are_few(front, files, options);
    if k < before.len() {
        let i = selected_scores_are_not_left_out(front, files, options, k, f);
        assert(front[i] == ranked[i]);
        i
    } else {
        last_files_flag(files, f, ranked.last().score.path);
        ranked.len() - 1
    }
}

proof fn selections_are_few(
    ranked: Seq<RankedHotspotScoreView>,
    files: Seq<FileRecordView>,
    options: HotspotsOptions,
)
    ensures
        scoring::selected(ranked, files, options).len() <= options.limit,
        scoring::selected(ranked, files, options).len() <= ranked.len(),
    decreases ranked.len(),
{
    if ranked.len() > 0 {
        selections_are_few(ranked.drop_last(), files, options);
    }
}

/// A score is selected where the last file at its path is not left out, unless as many as the
/// limit are.
pub proof fn other_scores_are_selected(
    ranked: Seq<RankedHotspotScoreView>,
    files: Seq<FileRecordView>,
    options: HotspotsOptions,
    i: int,
    f: int,
)
    requires
        0 <= i < ranked.len(),
        is_last_at(files, f, ranked[i].score.path),
        !is_left_out(files[f], options),
    ensures
        scoring::selected(ranked, files, options).contains(ranked[i]) || scoring::selected(
            ranked,
            files,
            options,
        ).len() == options.limit,
    decreases ranked.len(),
{
    let front = ranked.drop_last();
    let before = scoring::selected(front, files, options);
    let all = scoring::selected(ranked, files, options);
    selections_are_few(front, files, options);
    if i < ranked.len() - 1 {
        assert(front[i] == ranked[i]);
        other_scores_are_selected(front, files, options, i, f);
        if before.contains(ranked[i]) {
            let k = choose|k: int| 0 <= k < before.len() && before[k] == ranked[i];
            assert(all[k] == ranked[i]);
        }
    } else {
        last_files_flag(files, f, ranked[i].score.path);
        if before.len() < options.limit {
            assert(all[all.len() - 1] == ranked[i]);
        }
    }
}

} // verus!
