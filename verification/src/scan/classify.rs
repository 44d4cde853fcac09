//! What a file turns out to be, from what could be seen of it.

use vstd::prelude::*;

use crate::scan;
use crate::scan::{
    ContentKind, FileRecord, FileRecordView, FileWarning, FileWarningView, MAX_TEXT_READ_BYTES,
};
use crate::text;

verus! {

/// A repository-relative path, and whether characters of it had to be replaced.
#[derive(Debug, Clone, PartialEq, Eq)]
pub struct NormalizedPath {
    pub value: String,
    pub used_replacement: bool,
}

/// Whether some part of a path holds the replacement character.
pub open spec fn any_replacement(parts: Seq<Seq<char>>) -> bool {
    exists|i: int| 0 <= i < parts.len() && #[trigger] parts[i].contains('\u{FFFD}')
}

/// Puts a repository-relative path together from its components.
pub fn normalized_relative_path(components: &[String]) -> (out: NormalizedPath)
    ensures
        out.value@ == text::joined(components.deep_view(), "/"@),
        out.used_replacement == any_replacement(components.deep_view()),
{
    let ghost parts = components.deep_view();
    let mut used_replacement = false;
    let mut i: usize = 0;
    while i < components.len()
        invariant
            i <= components.len(),
            parts == components.deep_view(),
            used_replacement == exists|j: int|
                0 <= j < i && #[trigger] parts[j].contains('\u{FFFD}'),
        decreases components.len() - i,
    {
        let chars = text::chars_of(components[i].as_str());
        assert(parts[i as int] == chars@);
        let mut k: usize = 0;
        let mut found = false;
        while k < chars.len()
            invariant
                k <= chars.len(),
                found == exists|j: int| 0 <= j < k && #[trigger] chars@[j] == '\u{FFFD}',
            decreases chars.len() - k,
        {
            if chars[k] == '\u{FFFD}' {
                found = true;
            }
            k = k + 1;
        }
        if found {
            let ghost j = choose|j: int| 0 <= j < k && #[trigger] chars@[j] == '\u{FFFD}';
            assert(parts[i as int].contains('\u{FFFD}'));
            used_replacement = true;
        } else {
            assert(!parts[i as int].contains('\u{FFFD}'));
        }
        i = i + 1;
    }
    NormalizedPath { value: text::join(components, "/"), used_replacement }
}

/// The path that a warning shows; the repository itself has none.
pub fn normalized_warning_path(components: &[String]) -> (out: Option<String>)
    ensures
        out.deep_view() == (if text::joined(components.deep_view(), "/"@).len() == 0 {
            None
        } else {
            Some(text::joined(components.deep_view(), "/"@))
        }),
{
    let path = normalized_relative_path(components);
    if path.value.as_str().is_empty() {
        None
    } else {
        Some(path.value)
    }
}

/// What could be seen of a file.
#[derive(Debug, Clone, PartialEq, Eq)]
pub enum FileObservation {
    /// The target of the symlink could not be found out.
    TargetUnreadable { message: String },
    /// The target of the symlink lies outside the scanned directory.
    TargetOutside,
    /// The metadata could not be read.
    MetadataFailed { message: String },
    /// The file could not be opened.
    OpenFailed { byte_size: u64, message: String },
    /// The contents could not be read.
    ReadFailed { byte_size: u64, message: String },
    /// The contents, or as much of them as is ever read.
    Contents { byte_size: u64, bytes: Vec<u8> },
}

/// A warning about a file.
pub open spec fn warning(code: Seq<char>, message: Seq<char>) -> FileWarningView {
    FileWarningView { code, message }
}

/// A file record with one more warning.
pub open spec fn warned(record: FileRecordView, one: FileWarningView) -> FileRecordView {
    FileRecordView { warnings: record.warnings.push(one), ..record }
}

/// Puts a warning together.
pub fn file_warning(code: &'static str, message: String) -> (out: FileWarning)
    ensures
        out.deep_view() == warning(code@, message@),
{
    FileWarning { code, message }
}

fn warn(record: &mut FileRecord, code: &'static str, message: String)
    ensures
        final(record).deep_view() == warned(old(record).deep_view(), warning(code@, message@)),
{
    let ghost before = record.deep_view();
    record.warnings.push(file_warning(code, message));
    assert(record.deep_view().warnings =~= before.warnings.push(warning(code@, message@)));
}

/// How many lines a text has.
pub fn count_lines(contents: &str) -> (n: u64)
    ensures
        n == text::lines(contents@).len(),
{
    let lines = text::lines_of(contents);
    lines.len() as u64
}

/// What the contents of a file say of it: a NUL byte makes it binary, bytes that are
/// not UTF-8 leave it unknown, and the lines are counted unless there is more text than
/// is ever read.
pub open spec fn with_contents(record: FileRecordView, bytes: Seq<u8>) -> FileRecordView {
    let limit = MAX_TEXT_READ_BYTES as int;
    let read = if bytes.len() > limit {
        bytes.take(limit)
    } else {
        bytes
    };
    if bytes.contains(0u8) {
        FileRecordView { content: ContentKind::Binary, ..record }
    } else if !vstd::utf8::valid_utf8(read) {
        warned(record, warning("unsupported_encoding"@, "file contents are not valid UTF-8"@))
    } else if bytes.len() > limit {
        warned(
            FileRecordView { content: ContentKind::Text, ..record },
            warning(
                "line_count_skipped"@,
                "file is larger than the safe text read limit of 8388608 bytes"@,
            ),
        )
    } else {
        FileRecordView {
            content: ContentKind::Text,
            line_count: Some(text::lines(vstd::utf8::decode_utf8(read)).len() as u64),
            ..record
        }
    }
}

fn holds_nul(bytes: &[u8]) -> (r: bool)
    ensures
        r == bytes@.contains(0u8),
{
    let mut i: usize = 0;
    while i < bytes.len()
        invariant
            i <= bytes.len(),
            forall|j: int| 0 <= j < i ==> bytes@[j] != 0,
        decreases bytes.len() - i,
    {
        if bytes[i] == 0 {
            assert(bytes@.contains(bytes@[i as int]));
            return true;
        }
        i = i + 1;
    }
    false
}

/// Records what the contents of a file say of it.
pub fn classify_content(record: &mut FileRecord, bytes: &[u8])
    ensures
        final(record).deep_view() == with_contents(old(record).deep_view(), bytes@),
{
    let ghost before = record.deep_view();
    if holds_nul(bytes) {
        record.content = ContentKind::Binary;
        return ;
    }
    let limit: usize = MAX_TEXT_READ_BYTES as usize;
    let exceeded = bytes.len() > limit;
    let read = if exceeded {
        vstd::slice::slice_subrange(bytes, 0, limit)
    } else {
        bytes
    };
    assert(exceeded ==> read@ =~= bytes@.take(limit as int));
    let contents = match text::decode(read) {
        Ok(contents) => contents,
        Err(_) => {
            warn(
                record,
                "unsupported_encoding",
                "file contents are not valid UTF-8".to_owned(),
            );
            return ;
        },
    };
    record.content = ContentKind::Text;
    if exceeded {
        warn(
            record,
            "line_count_skipped",
            "file is larger than the safe text read limit of 8388608 bytes".to_owned(),
        );
        return ;
    }
    record.line_count = Some(count_lines(contents.as_str()));
}

/// What a path says of a file.
pub open spec fn path_facts(path: Seq<char>, is_symlink: bool) -> FileRecordView {
    FileRecordView {
        path,
        byte_size: None,
        extension: scan::extension_of(path),
        language: scan::language_of(path),
        line_count: None,
        is_vendor: scan::in_vendor_directory(path),
        is_generated: scan::is_generated(path),
        content: ContentKind::Unknown,
        is_symlink,
        classification: "implemented"@,
        warnings: Seq::empty(),
    }
}

/// What a file turns out to be.
pub open spec fn classified(
    path: Seq<char>,
    used_replacement: bool,
    is_symlink: bool,
    observation: FileObservation,
) -> FileRecordView {
    let named = if used_replacement {
        warned(
            path_facts(path, is_symlink),
            warning(
                "unsupported_path_encoding"@,
                "file path is not valid UTF-8; replacement characters were used in portable output"@,
            ),
        )
    } else {
        path_facts(path, is_symlink)
    };
    match observation {
        FileObservation::TargetUnreadable { message } => warned(
            named,
            warning(
                "symlink_target_unreadable"@,
                "failed to canonicalize symlink target: "@ + message@,
            ),
        ),
        FileObservation::TargetOutside => warned(
            named,
            warning(
                "symlink_target_outside_root"@,
                "symlink target is outside the scan root"@,
            ),
        ),
        FileObservation::MetadataFailed { message } => warned(
            named,
            warning("metadata_failed"@, "failed to read file metadata: "@ + message@),
        ),
        FileObservation::OpenFailed { byte_size, message } => warned(
            FileRecordView { byte_size: Some(byte_size), ..named },
            warning("read_failed"@, "failed to open file contents: "@ + message@),
        ),
        FileObservation::ReadFailed { byte_size, message } => warned(
            FileRecordView { byte_size: Some(byte_size), ..named },
            warning("read_failed"@, "failed to read file contents: "@ + message@),
        ),
        FileObservation::Contents { byte_size, bytes } => with_contents(
            FileRecordView { byte_size: Some(byte_size), ..named },
            bytes@,
        ),
    }
}

fn prefixed(prefix: &str, message: &str) -> (out: String)
    ensures
        out@ == prefix@ + message@,
{
    let mut out = prefix.to_owned();
    out.append(message);
    out
}

/// Records what a file turns out to be.
pub fn classify_file(path: NormalizedPath, is_symlink: bool, observation: &FileObservation) -> (
    out: FileRecord)
    ensures
        out.deep_view() == classified(
            path.value@,
            path.used_replacement,
            is_symlink,
            *observation,
        ),
{
    let extension = scan::file_extension(path.value.as_str());
    let language = scan::language_guess(path.value.as_str());
    let is_vendor = scan::is_vendor_path(path.value.as_str());
    let is_generated = scan::is_generated_path(path.value.as_str());
    let mut record = FileRecord {
        path: path.value,
        byte_size: None,
        extension,
        language,
        line_count: None,
        is_vendor,
        is_generated,
        content: ContentKind::Unknown,
        is_symlink,
        classification: "implemented",
        warnings: Vec::new(),
    };
    assert(record.deep_view().warnings =~= Seq::<FileWarningView>::empty());
    if path.used_replacement {
        warn(
            &mut record,
            "unsupported_path_encoding",
            "file path is not valid UTF-8; replacement characters were used in portable output".to_owned(),
        );
    }
    match observation {
        FileObservation::TargetUnreadable { message } => {
            warn(
                &mut record,
                "symlink_target_unreadable",
                prefixed("failed to canonicalize symlink target: ", message.as_str()),
            );
        },
        FileObservation::TargetOutside => {
            warn(
                &mut record,
                "symlink_target_outside_root",
                "symlink target is outside the scan root".to_owned(),
            );
        },
        FileObservation::MetadataFailed { message } => {
            warn(
                &mut record,
                "metadata_failed",
                prefixed("failed to read file metadata: ", message.as_str()),
            );
        },
        FileObservation::OpenFailed { byte_size, message } => {
            record.byte_size = Some(*byte_size);
            warn(
                &mut record,
                "read_failed",
                prefixed("failed to open file contents: ", message.as_str()),
            );
        },
        FileObservation::ReadFailed { byte_size, message } => {
            record.byte_size = Some(*byte_size);
            warn(
                &mut record,
                "read_failed",
                prefixed("failed to read file contents: ", message.as_str()),
            );
        },
        FileObservation::Contents { byte_size, bytes } => {
            record.byte_size = Some(*byte_size);
            classify_content(&mut record, bytes.as_slice());
        },
    }
    record
}

} // verus!
