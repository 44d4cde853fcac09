//! Scanning a repository, from what the walk through it came upon.

use vstd::prelude::*;

use crate::commands::{ScanError, ScanErrorView};
use crate::order;
use crate::paths;
use crate::scan::classify;
use crate::scan::classify::{
    classify_file, normalized_relative_path, normalized_warning_path, FileObservation,
};
use crate::scan::walk;
use crate::scan::walk::{
    ignore_error_path, is_internal_entry, is_walked_file, report_of_walk, scan_warning,
    scan_warning_from_entry_error, scan_warning_from_walk_error, EntryKind, WalkFault,
};
use crate::scan::{
    FileRecord, FileRecordView, ScanReport, ScanReportView, ScanWarning, ScanWarningView,
};
use crate::text;

verus! {

/// What was found at the directory to scan.
#[derive(Debug, Clone, PartialEq, Eq)]
pub enum RootLookup {
    /// It is not there, or not to be read; in words.
    Failed { message: String },
    /// It is no directory.
    NotDirectory,
    /// The directory as the file system knows it, with `/` between its names.
    Directory { root: String },
}

/// What could be seen of a file.
#[derive(Debug, Clone, PartialEq, Eq)]
pub struct SeenFile {
    pub is_symlink: bool,
    pub observation: FileObservation,
}

/// What the walk came upon.
#[derive(Debug)]
pub enum WalkedEntry {
    /// The walk failed.
    Failed { fault: WalkFault, is_io: bool },
    /// An entry, by its path with `/` between the names, and what was wrong with the ignore rules
    /// for it; `seen` is what could be seen of it, where it was looked at as a file.
    Entry { path: String, fault: Option<WalkFault>, kind: EntryKind, seen: Option<SeenFile> },
}

/// The path that a warning shows for what is at `path`; what lies outside `root` has none, nor
/// has `root` itself.
pub open spec fn shown_path(root: Seq<char>, path: Seq<char>) -> Option<Seq<char>> {
    match paths::parts_below(paths::written(root), paths::written(path)) {
        None => None,
        Some(parts) => if text::joined(parts, "/"@).len() == 0 {
            None
        } else {
            Some(text::joined(parts, "/"@))
        },
    }
}

fn warning_path(root: &str, path: &str) -> (out: Option<String>)
    ensures
        out.deep_view() == shown_path(root@, path@),
{
    match paths::parts_under(&paths::as_written(root), &paths::as_written(path)) {
        None => None,
        Some(parts) => normalized_warning_path(parts.as_slice()),
    }
}

/// The path that a warning shows for a fault.
pub open spec fn shown_fault_path(root: Seq<char>, fault: WalkFault) -> Option<Seq<char>> {
    match walk::fault_path(fault) {
        Some(path) => shown_path(root, path),
        None => None,
    }
}

fn fault_warning_path(root: &str, fault: &WalkFault) -> (out: Option<String>)
    ensures
        out.deep_view() == shown_fault_path(root@, *fault),
{
    match ignore_error_path(fault) {
        Some(path) => warning_path(root, path.as_str()),
        None => None,
    }
}

/// Whether the parts of a path below the scanned directory lead into what belongs to Git, or into
/// the analysis directory at the top.
pub open spec fn are_internal(parts: Seq<Seq<char>>) -> bool {
    exists|i: int| 0 <= i < parts.len() && walk::is_internal(Some(#[trigger] parts[i]), i == 0)
}

/// Whether what is at `path` belongs to Git, or to the analysis.
pub open spec fn is_internal_at(root: Seq<char>, path: Seq<char>) -> bool {
    match paths::parts_below(paths::written(root), paths::written(path)) {
        Some(parts) => are_internal(parts),
        None => false,
    }
}

fn lead_inside(parts: &Vec<String>) -> (r: bool)
    ensures
        r == are_internal(parts.deep_view()),
{
    let ghost all = parts.deep_view();
    let mut i: usize = 0;
    while i < parts.len()
        invariant
            i <= parts.len(),
            all == parts.deep_view(),
            forall|j: int| 0 <= j < i ==> !walk::is_internal(Some(#[trigger] all[j]), j == 0),
        decreases parts.len() - i,
    {
        assert(all[i as int] == parts@[i as int]@);
        if is_internal_entry(Some(parts[i].as_str()), i == 0) {
            return true;
        }
        i = i + 1;
    }
    false
}

fn lies_inside(root: &str, path: &str) -> (r: bool)
    ensures
        r == is_internal_at(root@, path@),
{
    match paths::parts_under(&paths::as_written(root), &paths::as_written(path)) {
        Some(parts) => lead_inside(&parts),
        None => false,
    }
}

/// The warnings that an entry gives; what belongs to Git or to the analysis gives none.
pub open spec fn warnings_of(root: Seq<char>, entry: WalkedEntry) -> Seq<ScanWarningView> {
    match entry {
        WalkedEntry::Failed { fault, is_io } => seq![
            walk::walk_warning(fault, is_io, shown_fault_path(root, fault)),
        ],
        WalkedEntry::Entry { path, fault, kind, .. } => if is_internal_at(root, path@) {
            Seq::empty()
        } else {
            let rules = match fault {
                Some(fault) => seq![
                    walk::rule_warning(
                        fault,
                        shown_fault_path(root, fault),
                        shown_path(root, path@),
                    ),
                ],
                None => Seq::empty(),
            };
            if kind == EntryKind::Unavailable {
                rules.push(
                    ScanWarningView {
                        code: "unsupported_file_type"@,
                        path: shown_path(root, path@),
                        message: "filesystem entry type is unavailable; entry skipped"@,
                    },
                )
            } else {
                rules
            }
        },
    }
}

/// The file that an entry is recorded as, if it is; what belongs to Git or to the analysis is not.
pub open spec fn file_of(root: Seq<char>, entry: WalkedEntry) -> Result<
    Option<FileRecordView>,
    ScanErrorView,
> {
    match entry {
        WalkedEntry::Failed { .. } => Ok(None),
        WalkedEntry::Entry { path, kind, seen, .. } => match (
            walk::is_walked(kind) && !is_internal_at(root, path@),
            seen,
        ) {
            (true, Some(seen)) => match paths::parts_below(
                paths::written(root),
                paths::written(path@),
            ) {
                None => Err(ScanErrorView::RelativePath { root, path: path@ }),
                Some(parts) => Ok(
                    Some(
                        classify::classified(
                            text::joined(parts, "/"@),
                            classify::any_replacement(parts),
                            seen.is_symlink,
                            seen.observation,
                        ),
                    ),
                ),
            },
            _ => Ok(None),
        },
    }
}

/// The warnings that entries give, in their order.
pub open spec fn all_warnings(root: Seq<char>, entries: Seq<WalkedEntry>) -> Seq<ScanWarningView>
    decreases entries.len(),
{
    if entries.len() == 0 {
        Seq::empty()
    } else {
        all_warnings(root, entries.drop_last()) + warnings_of(root, entries.last())
    }
}

/// The files that entries are recorded as, in their order, or the first failure.
pub open spec fn all_files(root: Seq<char>, entries: Seq<WalkedEntry>) -> Result<
    Seq<FileRecordView>,
    ScanErrorView,
>
    decreases entries.len(),
{
    if entries.len() == 0 {
        Ok(Seq::empty())
    } else {
        match all_files(root, entries.drop_last()) {
            Err(error) => Err(error),
            Ok(files) => match file_of(root, entries.last()) {
                Err(error) => Err(error),
                Ok(Some(file)) => Ok(files.push(file)),
                Ok(None) => Ok(files),
            },
        }
    }
}

/// The report of a scan.
pub open spec fn scanned(
    requested: Seq<char>,
    lookup: RootLookup,
    entries: Seq<WalkedEntry>,
) -> Result<ScanReportView, ScanErrorView> {
    match lookup {
        RootLookup::Failed { message } => Err(
            ScanErrorView::Root { path: requested, message: message@ },
        ),
        RootLookup::NotDirectory => Err(ScanErrorView::RootNotDirectory { path: requested }),
        RootLookup::Directory { root } => match all_files(root@, entries) {
            Err(error) => Err(error),
            Ok(files) => Ok(walk::walk_report(all_warnings(root@, entries), files)),
        },
    }
}

fn push_warnings(root: &str, entry: &WalkedEntry, out: &mut Vec<ScanWarning>)
    ensures
        final(out).deep_view() == old(out).deep_view() + warnings_of(root@, *entry),
{
    let ghost before = out.deep_view();
    match entry {
        WalkedEntry::Failed { fault, is_io } => {
            let path = fault_warning_path(root, fault);
            let warning = scan_warning_from_walk_error(fault, *is_io, path);
            let ghost value = warning.deep_view();
            out.push(warning);
            assert(out.deep_view() =~= before + seq![value]);
        },
        WalkedEntry::Entry { path, fault, kind, .. } => {
            if lies_inside(root, path.as_str()) {
                assert(before + Seq::<ScanWarningView>::empty() =~= before);
                return;
            }
            if let Some(fault) = fault {
                let at = fault_warning_path(root, fault);
                let own = warning_path(root, path.as_str());
                let warning = scan_warning_from_entry_error(fault, at, own);
                let ghost value = warning.deep_view();
                out.push(warning);
                assert(out.deep_view() =~= before + seq![value]);
            }
            assert(fault is None ==> out.deep_view() =~= before + Seq::empty());
            let ghost ruled = out.deep_view();
            if *kind == EntryKind::Unavailable {
                let warning = scan_warning(
                    "unsupported_file_type",
                    warning_path(root, path.as_str()),
                    "filesystem entry type is unavailable; entry skipped".to_owned(),
                );
                let ghost value = warning.deep_view();
                out.push(warning);
                assert(out.deep_view() =~= ruled.push(value));
                assert(out.deep_view() =~= before + warnings_of(root@, *entry));
            }
        },
    }
}

fn recorded_file(root: &str, entry: &WalkedEntry) -> (out: Result<Option<FileRecord>, ScanError>)
    ensures
        match out {
            Ok(file) => file_of(root@, *entry) == Ok::<Option<FileRecordView>, ScanErrorView>(
                file.deep_view(),
            ),
            Err(error) => file_of(root@, *entry) == Err::<Option<FileRecordView>, ScanErrorView>(
                error.deep_view(),
            ),
        },
{
    match entry {
        WalkedEntry::Failed { .. } => Ok(None),
        WalkedEntry::Entry { path, kind, seen, .. } => {
            if !is_walked_file(*kind) || lies_inside(root, path.as_str()) {
                return Ok(None);
            }
            let seen = match seen {
                Some(seen) => seen,
                None => return Ok(None),
            };
            match paths::parts_under(&paths::as_written(root), &paths::as_written(path.as_str())) {
                None => Err(
                    ScanError::RelativePath { root: root.to_owned(), path: path.clone() },
                ),
                Some(parts) => Ok(
                    Some(
                        classify_file(
                            normalized_relative_path(parts.as_slice()),
                            seen.is_symlink,
                            &seen.observation,
                        ),
                    ),
                ),
            }
        },
    }
}

/// Scans the repository at `requested`: the files by path, and what went wrong.
pub fn scan_repository(requested: &str, lookup: RootLookup, entries: Vec<WalkedEntry>) -> (out:
    Result<ScanReport, ScanError>)
    ensures
        match out {
            Ok(report) => scanned(requested@, lookup, entries@) == Ok::<
                ScanReportView,
                ScanErrorView,
            >(report.deep_view()),
            Err(error) => scanned(requested@, lookup, entries@) == Err::<
                ScanReportView,
                ScanErrorView,
            >(error.deep_view()),
        },
{
    let root = match &lookup {
        RootLookup::Failed { message } => {
            return Err(
                ScanError::Root { path: requested.to_owned(), message: message.clone() },
            );
        },
        RootLookup::NotDirectory => {
            return Err(ScanError::RootNotDirectory { path: requested.to_owned() });
        },
        RootLookup::Directory { root } => root,
    };
    let ghost all = entries@;
    let mut warnings: Vec<ScanWarning> = Vec::new();
    let mut files: Vec<FileRecord> = Vec::new();
    let mut i: usize = 0;
    assert(warnings.deep_view() =~= all_warnings(root@, all.take(0)));
    assert(files.deep_view() =~= Seq::<FileRecordView>::empty());
    while i < entries.len()
        invariant
            i <= entries.len(),
            all == entries@,
            lookup == (RootLookup::Directory { root: *root }),
            warnings.deep_view() == all_warnings(root@, all.take(i as int)),
            all_files(root@, all.take(i as int)) == Ok::<Seq<FileRecordView>, ScanErrorView>(
                files.deep_view(),
            ),
        decreases entries.len() - i,
    {
        let ghost before = files.deep_view();
        proof {
            assert(all.take(i + 1).drop_last() =~= all.take(i as int));
            assert(all.take(i + 1).last() == all[i as int]);
        }
        push_warnings(root.as_str(), &entries[i], &mut warnings);
        match recorded_file(root.as_str(), &entries[i]) {
            Ok(Some(file)) => {
                let ghost value = file.deep_view();
                files.push(file);
                assert(files.deep_view() =~= before.push(value));
            },
            Ok(None) => {},
            Err(error) => {
                proof {
                    failure_stays(root@, all, i + 1);
                }
                return Err(error);
            },
        }
        i = i + 1;
    }
    assert(all.take(i as int) =~= all);
    Ok(report_of_walk(warnings, files))
}

/// Once recording a file fails, the scan fails.
proof fn failure_stays(root: Seq<char>, entries: Seq<WalkedEntry>, n: int)
    requires
        0 <= n <= entries.len(),
        all_files(root, entries.take(n)) is Err,
    ensures
        all_files(root, entries) == all_files(root, entries.take(n)),
    decreases entries.len() - n,
{
    if n == entries.len() {
        assert(entries.take(n) =~= entries);
    } else {
        assert(entries.take(n + 1).drop_last() =~= entries.take(n));
        failure_stays(root, entries, n + 1);
    }
}

/// Each file that is recorded has parts that do not lead inside.
proof fn recorded_files_are_outside(root: Seq<char>, entries: Seq<WalkedEntry>, i: int)
    requires
        all_files(root, entries) matches Ok(files) && 0 <= i < files.len(),
    ensures
        !are_internal(text::split_on(all_files(root, entries)->Ok_0[i].path, '/')),
    decreases entries.len(),
{
    let front = entries.drop_last();
    let before = all_files(root, front)->Ok_0;
    if i < before.len() {
        recorded_files_are_outside(root, front, i);
    } else {
        match entries.last() {
            WalkedEntry::Entry { path, seen: Some(seen), .. } => {
                let parts = paths::parts_below(paths::written(root), paths::written(path@))->0;
                paths::written_parts_hold_no_separator(paths::written(root), path@);
                reveal_strlit("/");
                assert("/"@ =~= seq!['/']);
                if parts.len() > 0 {
                    text::joined_pieces(parts, '/');
                } else {
                    let pieces = text::split_on(Seq::<char>::empty(), '/');
                    reveal_strlit(".git");
                    reveal_strlit(".hotpath");
                    assert(pieces =~= seq![Seq::<char>::empty()]);
                }
                assert(all_files(root, entries)->Ok_0[i].path == text::joined(parts, "/"@));
            },
            _ => {},
        }
    }
}

/// No file of a report lies in a directory of Git, nor in the analysis directory at the top.
pub proof fn internal_files_are_not_reported(
    requested: Seq<char>,
    lookup: RootLookup,
    entries: Seq<WalkedEntry>,
    i: int,
)
    requires
        scanned(requested, lookup, entries) matches Ok(report) && 0 <= i < report.files.len(),
    ensures
        !are_internal(
            text::split_on(scanned(requested, lookup, entries)->Ok_0.files[i].path, '/'),
        ),
{
    let root = lookup->root@;
    let files = all_files(root, entries)->Ok_0;
    let sorted = scanned(requested, lookup, entries)->Ok_0.files;
    let lt = order::by_key::<FileRecord>();
    order::sorted_by_permutes(files, lt);
    assert(sorted.contains(sorted[i]));
    order::contains_by_multiset(sorted, files, sorted[i]);
    let k = choose|k: int| 0 <= k < files.len() && files[k] == sorted[i];
    recorded_files_are_outside(root, entries, k);
}

} // verus!
