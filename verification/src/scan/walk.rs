//! Walking the repository: which entries count, what is reported, and in what order.

use vstd::prelude::*;

use crate::numbers;
use crate::order;
use crate::order::{KeyPart, Ordered};
use crate::scan::{
    FileRecord, FileRecordView, ScanReport, ScanReportView, ScanWarning, ScanWarningView,
};
use crate::text;

verus! {

impl Ordered for FileRecord {
    /// Files are ordered by path.
    open spec fn key(v: FileRecordView) -> Seq<KeyPart> {
        seq![KeyPart::Text(v.path)]
    }

    fn comes_before(&self, other: &Self) -> (r: bool) {
        proof {
            reveal_with_fuel(order::key_lt_from, 2);
        }
        text::precedes(self.path.as_str(), other.path.as_str())
    }
}

impl Ordered for ScanWarning {
    /// Warnings are ordered by path, those without one first, then by code and message.
    open spec fn key(v: ScanWarningView) -> Seq<KeyPart> {
        match v.path {
            None => seq![
                KeyPart::Number(0),
                KeyPart::Text(Seq::empty()),
                KeyPart::Text(v.code),
                KeyPart::Text(v.message),
            ],
            Some(path) => seq![
                KeyPart::Number(1),
                KeyPart::Text(path),
                KeyPart::Text(v.code),
                KeyPart::Text(v.message),
            ],
        }
    }

    fn comes_before(&self, other: &Self) -> (r: bool) {
        proof {
            reveal_with_fuel(order::key_lt_from, 5);
            text::text_lt_irreflexive(Seq::empty());
        }
        match (&self.path, &other.path) {
            (None, Some(_)) => {
                return true;
            },
            (Some(_), None) => {
                return false;
            },
            (Some(mine), Some(theirs)) => {
                if text::precedes(mine.as_str(), theirs.as_str()) {
                    return true;
                }
                if text::precedes(theirs.as_str(), mine.as_str()) {
                    return false;
                }
            },
            (None, None) => {},
        }
        if text::precedes(self.code, other.code) {
            return true;
        }
        if text::precedes(other.code, self.code) {
            return false;
        }
        text::precedes(self.message.as_str(), other.message.as_str())
    }
}

/// The report of a walk: the files by path, and the warnings by path, code and message.
pub open spec fn walk_report(
    warnings: Seq<ScanWarningView>,
    files: Seq<FileRecordView>,
) -> ScanReportView {
    ScanReportView {
        status: "ok"@,
        file_walking: "implemented"@,
        classification: "implemented"@,
        warnings: order::sorted_by(warnings, order::by_key::<ScanWarning>()),
        files: order::sorted_by(files, order::by_key::<FileRecord>()),
    }
}

/// The report of a walk: the files by path, and the warnings by path, code and message.
pub fn report_of_walk(warnings: Vec<ScanWarning>, files: Vec<FileRecord>) -> (out: ScanReport)
    ensures
        out.deep_view() == walk_report(warnings.deep_view(), files.deep_view()),
{
    ScanReport::from_parts(order::sort(warnings), order::sort(files))
}

/// Whether an entry belongs to Git, or is the analysis directory at the top.
pub open spec fn is_internal(name: Option<Seq<char>>, at_top: bool) -> bool {
    match name {
        Some(name) => name == ".git"@ || (name == ".hotpath"@ && at_top),
        None => false,
    }
}

/// Whether an entry belongs to Git, or is the analysis directory at the top.
pub fn is_internal_entry(name: Option<&str>, at_top: bool) -> (r: bool)
    ensures
        r == is_internal(name.deep_view(), at_top),
{
    match name {
        Some(name) => text::same(name, ".git") || (text::same(name, ".hotpath") && at_top),
        None => false,
    }
}

/// What kind of entry the walk came upon.
#[derive(Debug, Clone, Copy, PartialEq, Eq, Structural)]
pub enum EntryKind {
    File,
    /// A symlink; whether its target is a file, where that can be found out.
    Symlink { target_is_file: Option<bool> },
    Other,
    Unavailable,
}

/// Whether an entry is recorded as a file: files are, and symlinks unless their target
/// is known to be something else.
pub open spec fn is_walked(kind: EntryKind) -> bool {
    match kind {
        EntryKind::File => true,
        EntryKind::Symlink { target_is_file } => target_is_file != Some(false),
        EntryKind::Other => false,
        EntryKind::Unavailable => false,
    }
}

/// Whether an entry is recorded as a file.
pub fn is_walked_file(kind: EntryKind) -> (r: bool)
    ensures
        r == is_walked(kind),
{
    match kind {
        EntryKind::File => true,
        EntryKind::Symlink { target_is_file } => match target_is_file {
            Some(is_file) => is_file,
            None => true,
        },
        EntryKind::Other => false,
        EntryKind::Unavailable => false,
    }
}

/// Puts a warning together.
pub fn scan_warning(code: &'static str, path: Option<String>, message: String) -> (
    out: ScanWarning)
    ensures
        out.deep_view() == (ScanWarningView {
            code: code@,
            path: path.deep_view(),
            message: message@,
        }),
{
    ScanWarning { code, path, message }
}

/// Why the walk, or a rule of an ignore file, failed.
#[derive(Debug)]
pub enum WalkFault {
    /// Several faults at once.
    Partial(Vec<WalkFault>),
    /// A fault on a line of an ignore file.
    WithLineNumber { line: u64, fault: Box<WalkFault> },
    /// A fault at a path.
    WithPath { path: String, fault: Box<WalkFault> },
    /// A fault at a depth of the walk.
    WithDepth { fault: Box<WalkFault> },
    /// A loop of symlinks, and the entry that closes it.
    Loop { child: String },
    /// The file system failed; in words.
    Io { message: String },
    /// A pattern is faulty.
    Glob { glob: Option<String>, message: String },
    /// A file type is not known.
    UnrecognizedFileType(String),
    /// A file type is not defined as it has to be.
    InvalidDefinition,
}

/// A fault in words.
pub open spec fn fault_words(fault: WalkFault) -> Seq<char>
    decreases fault,
{
    match fault {
        WalkFault::Partial(faults) => if faults@.len() == 0 {
            "unknown partial error"@
        } else if faults@.len() == 1 {
            fault_words(faults@[0])
        } else {
            "multiple errors occurred ("@ + numbers::decimal(faults@.len()) + " errors)"@
        },
        WalkFault::WithLineNumber { line, fault } => "line "@ + numbers::decimal(line as nat)
            + ": "@ + fault_words(*fault),
        WalkFault::WithPath { fault, .. } => fault_words(*fault),
        WalkFault::WithDepth { fault } => fault_words(*fault),
        WalkFault::Loop { .. } => "filesystem loop detected"@,
        WalkFault::Io { message } => message@,
        WalkFault::Glob { glob: Some(glob), message } => "error parsing glob '"@ + glob@ + "': "@
            + message@,
        WalkFault::Glob { glob: None, message } => message@,
        WalkFault::UnrecognizedFileType(name) => "unrecognized file type: "@ + name@,
        WalkFault::InvalidDefinition => "invalid file type definition; expected type:glob"@,
    }
}

/// A fault in words.
pub fn ignore_error_message(fault: &WalkFault) -> (out: String)
    ensures
        out@ == fault_words(*fault),
    decreases fault,
{
    match fault {
        WalkFault::Partial(faults) => {
            if faults.len() == 0 {
                "unknown partial error".to_owned()
            } else if faults.len() == 1 {
                ignore_error_message(&faults[0])
            } else {
                let mut out = "multiple errors occurred (".to_owned();
                numbers::push_decimal(&mut out, faults.len() as u64);
                out.append(" errors)");
                out
            }
        },
        WalkFault::WithLineNumber { line, fault } => {
            let mut out = "line ".to_owned();
            numbers::push_decimal(&mut out, *line);
            out.append(": ");
            let rest = ignore_error_message(fault);
            out.append(rest.as_str());
            out
        },
        WalkFault::WithPath { fault, .. } => ignore_error_message(fault),
        WalkFault::WithDepth { fault } => ignore_error_message(fault),
        WalkFault::Loop { .. } => "filesystem loop detected".to_owned(),
        WalkFault::Io { message } => message.clone(),
        WalkFault::Glob { glob: Some(glob), message } => {
            let mut out = "error parsing glob '".to_owned();
            out.append(glob.as_str());
            out.append("': ");
            out.append(message.as_str());
            out
        },
        WalkFault::Glob { glob: None, message } => message.clone(),
        WalkFault::UnrecognizedFileType(name) => {
            let mut out = "unrecognized file type: ".to_owned();
            out.append(name.as_str());
            out
        },
        WalkFault::InvalidDefinition => "invalid file type definition; expected type:glob".to_owned(),
    }
}

/// The first path that a fault is at.
pub open spec fn fault_path(fault: WalkFault) -> Option<Seq<char>>
    decreases fault, 1int, 0nat,
{
    match fault {
        WalkFault::Partial(faults) => first_fault_path(faults@, fault),
        WalkFault::WithLineNumber { fault, .. } => fault_path(*fault),
        WalkFault::WithDepth { fault } => fault_path(*fault),
        WalkFault::WithPath { path, .. } => Some(path@),
        WalkFault::Loop { child } => Some(child@),
        _ => None,
    }
}

/// The first path that one of `faults`, all of them parts of `whole`, is at.
pub open spec fn first_fault_path(faults: Seq<WalkFault>, whole: WalkFault) -> Option<Seq<char>>
    decreases whole, 0int, faults.len(),
{
    if faults.len() == 0 {
        None
    } else if decreases_to!(whole => faults[0]) {
        match fault_path(faults[0]) {
            Some(path) => Some(path),
            None => first_fault_path(faults.drop_first(), whole),
        }
    } else {
        None
    }
}

/// The first path that a fault is at.
pub fn ignore_error_path(fault: &WalkFault) -> (out: Option<String>)
    ensures
        out.deep_view() == fault_path(*fault),
    decreases fault,
{
    match fault {
        WalkFault::Partial(faults) => {
            let mut i: usize = 0;
            assert(faults@.skip(0) =~= faults@);
            while i < faults.len()
                invariant
                    i <= faults.len(),
                    *fault == WalkFault::Partial(*faults),
                    first_fault_path(faults@, *fault) == first_fault_path(
                        faults@.skip(i as int),
                        *fault,
                    ),
                decreases faults.len() - i,
            {
                assert(faults@.skip(i as int)[0] == faults@[i as int]);
                assert(faults@.skip(i as int).drop_first() =~= faults@.skip(i + 1));
                assert(decreases_to!(*fault => faults@[i as int]));
                match ignore_error_path(&faults[i]) {
                    Some(path) => {
                        return Some(path);
                    },
                    None => {},
                }
                i = i + 1;
            }
            None
        },
        WalkFault::WithLineNumber { fault, .. } => ignore_error_path(fault),
        WalkFault::WithDepth { fault } => ignore_error_path(fault),
        WalkFault::WithPath { path, .. } => Some(path.clone()),
        WalkFault::Loop { child } => Some(child.clone()),
        WalkFault::Io { .. } => None,
        WalkFault::Glob { .. } => None,
        WalkFault::UnrecognizedFileType(_) => None,
        WalkFault::InvalidDefinition => None,
    }
}

/// The warning for a fault of the walk.
pub open spec fn walk_warning(
    fault: WalkFault,
    is_io: bool,
    path: Option<Seq<char>>,
) -> ScanWarningView {
    ScanWarningView {
        code: if is_io {
            "walk_io_error"@
        } else {
            "walk_error"@
        },
        path,
        message: "failed while walking repository entry: "@ + fault_words(fault),
    }
}

/// The warning for a fault of the walk, at the repository-relative `path`.
pub fn scan_warning_from_walk_error(fault: &WalkFault, is_io: bool, path: Option<String>) -> (
    out: ScanWarning)
    ensures
        out.deep_view() == walk_warning(*fault, is_io, path.deep_view()),
{
    let mut message = "failed while walking repository entry: ".to_owned();
    let words = ignore_error_message(fault);
    message.append(words.as_str());
    scan_warning(
        if is_io {
            "walk_io_error"
        } else {
            "walk_error"
        },
        path,
        message,
    )
}

/// The warning for a fault in the ignore rules: at the path of the fault, else at the
/// path of the entry.
pub open spec fn rule_warning(
    fault: WalkFault,
    path: Option<Seq<char>>,
    entry: Option<Seq<char>>,
) -> ScanWarningView {
    ScanWarningView {
        code: "ignore_parse_error"@,
        path: if path is Some {
            path
        } else {
            entry
        },
        message: "failed to apply ignore rules: "@ + fault_words(fault),
    }
}

/// The warning for a fault in the ignore rules: at the path of the fault, else at the
/// path of the entry.
pub fn scan_warning_from_entry_error(
    fault: &WalkFault,
    path: Option<String>,
    entry: Option<String>,
) -> (out: ScanWarning)
    ensures
        out.deep_view() == rule_warning(*fault, path.deep_view(), entry.deep_view()),
{
    let mut message = "failed to apply ignore rules: ".to_owned();
    let words = ignore_error_message(fault);
    message.append(words.as_str());
    let at = match path {
        Some(path) => Some(path),
        None => entry,
    };
    scan_warning("ignore_parse_error", at, message)
}

/// Whether no two files have the same path.
pub open spec fn paths_differ(files: Seq<FileRecordView>) -> bool {
    forall|i: int, j: int|
        0 <= i < j < files.len() ==> (#[trigger] files[i]).path != (#[trigger] files[j]).path
}

/// Where two warnings tie, they are the same.
proof fn tied_warnings_are_equal(a: ScanWarningView, b: ScanWarningView)
    requires
        !order::by_key::<ScanWarning>()(a, b),
        !order::by_key::<ScanWarning>()(b, a),
    ensures
        a == b,
{
    reveal_with_fuel(order::key_lt_from, 5);
    let lt = order::by_key::<ScanWarning>();
    let (x, y) = (ScanWarning::key(a), ScanWarning::key(b));
    assert(lt(a, b) == order::key_lt_from(x, y, 0));
    assert(lt(b, a) == order::key_lt_from(y, x, 0));
    text::text_lt_irreflexive(Seq::empty());
    text::text_lt_total(a.code, b.code);
    text::text_lt_total(a.message, b.message);
    match (a.path, b.path) {
        (Some(left), Some(right)) => {
            text::text_lt_total(left, right);
        },
        _ => {},
    }
}

/// In whatever order the walk comes upon the files and its faults, the same files and the same
/// warnings are reported in the same order.
pub proof fn report_ignores_the_walk(
    warnings: Seq<ScanWarningView>,
    other_warnings: Seq<ScanWarningView>,
    files: Seq<FileRecordView>,
    other_files: Seq<FileRecordView>,
)
    requires
        warnings.to_multiset() == other_warnings.to_multiset(),
        files.to_multiset() == other_files.to_multiset(),
        paths_differ(files),
    ensures
        walk_report(warnings, files) == walk_report(other_warnings, other_files),
{
    order::by_key_is_strict_weak::<ScanWarning>();
    assert forall|i: int, j: int|
        0 <= i < warnings.len() && 0 <= j < warnings.len() && !order::by_key::<ScanWarning>()(
            warnings[i],
            warnings[j],
        ) && !order::by_key::<ScanWarning>()(warnings[j], warnings[i]) implies #[trigger] warnings[i]
        == #[trigger] warnings[j] by {
        tied_warnings_are_equal(warnings[i], warnings[j]);
    }
    order::sorted_by_ignores_arrival(warnings, other_warnings, order::by_key::<ScanWarning>());
    let lt = order::by_key::<FileRecord>();
    order::by_key_is_strict_weak::<FileRecord>();
    reveal_with_fuel(order::key_lt_from, 2);
    assert forall|i: int, j: int|
        0 <= i < files.len() && 0 <= j < files.len() && !lt(files[i], files[j]) && !lt(
            files[j],
            files[i],
        ) implies #[trigger] files[i] == #[trigger] files[j] by {
        let a = files[i];
        let b = files[j];
        assert(FileRecord::key(a)[0] == KeyPart::Text(a.path));
        assert(FileRecord::key(b)[0] == KeyPart::Text(b.path));
        text::text_lt_total(a.path, b.path);
        assert(lt(a, b) == text::text_lt(a.path, b.path));
        assert(lt(b, a) == text::text_lt(b.path, a.path));
    }
    order::sorted_by_ignores_arrival(files, other_files, lt);
}

} // verus!
