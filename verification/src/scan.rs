//! What is known of the files of a repository.

pub mod classify;
pub mod entries;
pub mod laws;
pub mod repository;
pub mod summary;
pub mod walk;

use vstd::prelude::*;

use crate::paths;
use crate::table::TextMap;
use crate::text;

verus! {

pub const SCAN_SCHEMA_VERSION: &'static str = "hotpath.scan.v1";

/// Text beyond this many bytes is not read.
pub const MAX_TEXT_READ_BYTES: u64 = 8_388_608;

/// The width of the labels in summaries.
pub const SUMMARY_LABEL_WIDTH: usize = 12;

/// What kind of content a file has.
#[derive(Debug, Clone, Copy, PartialEq, Eq, Structural)]
pub enum ContentKind {
    Text,
    Binary,
    Unknown,
}

/// Something that went wrong with one file.
#[derive(Debug, Clone, PartialEq, Eq)]
pub struct FileWarning {
    pub code: &'static str,
    pub message: String,
}

/// Something that went wrong while walking the repository.
#[derive(Debug, Clone, PartialEq, Eq)]
pub struct ScanWarning {
    pub code: &'static str,
    pub path: Option<String>,
    pub message: String,
}

/// What the scanner knows of one file.
#[derive(Debug, Clone, PartialEq, Eq)]
pub struct FileRecord {
    pub path: String,
    pub byte_size: Option<u64>,
    pub extension: Option<String>,
    pub language: Option<&'static str>,
    pub line_count: Option<u64>,
    pub is_vendor: bool,
    pub is_generated: bool,
    pub content: ContentKind,
    pub is_symlink: bool,
    pub classification: &'static str,
    pub warnings: Vec<FileWarning>,
}

/// The result of scanning a repository.
#[derive(Debug, Clone, PartialEq, Eq)]
pub struct ScanReport {
    pub status: &'static str,
    pub file_walking: &'static str,
    pub classification: &'static str,
    pub warnings: Vec<ScanWarning>,
    pub files: Vec<FileRecord>,
}

/// How many files have which kind of content.
#[derive(Debug, Clone, Copy, PartialEq, Eq, Structural)]
pub struct ContentSummary {
    pub text_files: u64,
    pub binary_files: u64,
    pub unknown_files: u64,
}

/// How many files are generated or vendored.
#[derive(Debug, Clone, Copy, PartialEq, Eq, Structural)]
pub struct FlagSummary {
    pub generated_files: u64,
    pub vendor_files: u64,
}

/// How many warnings there are.
#[derive(Debug, Clone, Copy, PartialEq, Eq, Structural)]
pub struct WarningSummary {
    pub total_warnings: u64,
    pub scan_warnings: u64,
    pub unreadable_warnings: u64,
    pub skipped_warnings: u64,
}

/// The totals of a scan.
pub struct ScanSummary {
    pub total_files: u64,
    pub total_bytes: u64,
    pub content: ContentSummary,
    pub flags: FlagSummary,
    pub warnings: WarningSummary,
    /// The number of files of each language.
    pub languages: TextMap<u64>,
}

impl DeepView for ContentKind {
    type V = ContentKind;

    open spec fn deep_view(&self) -> ContentKind {
        *self
    }
}

/// What a [`FileWarning`] stands for.
#[verifier::ext_equal]
pub struct FileWarningView {
    pub code: Seq<char>,
    pub message: Seq<char>,
}

impl DeepView for FileWarning {
    type V = FileWarningView;

    open spec fn deep_view(&self) -> FileWarningView {
        FileWarningView {
            code: self.code@,
            message: self.message@,
        }
    }
}

/// What a [`ScanWarning`] stands for.
#[verifier::ext_equal]
pub struct ScanWarningView {
    pub code: Seq<char>,
    pub path: Option<Seq<char>>,
    pub message: Seq<char>,
}

impl DeepView for ScanWarning {
    type V = ScanWarningView;

    open spec fn deep_view(&self) -> ScanWarningView {
        ScanWarningView {
            code: self.code@,
            path: self.path.deep_view(),
            message: self.message@,
        }
    }
}

/// What a [`FileRecord`] stands for.
#[verifier::ext_equal]
pub struct FileRecordView {
    pub path: Seq<char>,
    pub byte_size: Option<u64>,
    pub extension: Option<Seq<char>>,
    pub language: Option<Seq<char>>,
    pub line_count: Option<u64>,
    pub is_vendor: bool,
    pub is_generated: bool,
    pub content: ContentKind,
    pub is_symlink: bool,
    pub classification: Seq<char>,
    pub warnings: Seq<FileWarningView>,
}

impl DeepView for FileRecord {
    type V = FileRecordView;

    open spec fn deep_view(&self) -> FileRecordView {
        FileRecordView {
            path: self.path@,
            byte_size: self.byte_size.deep_view(),
            extension: self.extension.deep_view(),
            language: self.language.deep_view(),
            line_count: self.line_count.deep_view(),
            is_vendor: self.is_vendor,
            is_generated: self.is_generated,
            content: self.content,
            is_symlink: self.is_symlink,
            classification: self.classification@,
            warnings: self.warnings.deep_view(),
        }
    }
}

/// What a [`ScanReport`] stands for.
#[verifier::ext_equal]
pub struct ScanReportView {
    pub status: Seq<char>,
    pub file_walking: Seq<char>,
    pub classification: Seq<char>,
    pub warnings: Seq<ScanWarningView>,
    pub files: Seq<FileRecordView>,
}

impl DeepView for ScanReport {
    type V = ScanReportView;

    open spec fn deep_view(&self) -> ScanReportView {
        ScanReportView {
            status: self.status@,
            file_walking: self.file_walking@,
            classification: self.classification@,
            warnings: self.warnings.deep_view(),
            files: self.files.deep_view(),
        }
    }
}


impl ScanReport {
    /// The report of a scan that found `files` without a warning.
    pub fn from_files(files: Vec<FileRecord>) -> (out: ScanReport)
        ensures
            out.files == files,
            out.warnings@.len() == 0,
            out.status@ == "ok"@,
            out.file_walking@ == "implemented"@,
            out.classification@ == "implemented"@,
    {
        Self::from_parts(Vec::new(), files)
    }

    /// The report of a scan.
    pub fn from_parts(warnings: Vec<ScanWarning>, files: Vec<FileRecord>) -> (out: ScanReport)
        ensures
            out.files == files,
            out.warnings == warnings,
            out.status@ == "ok"@,
            out.file_walking@ == "implemented"@,
            out.classification@ == "implemented"@,
    {
        ScanReport {
            status: "ok",
            file_walking: "implemented",
            classification: "implemented",
            warnings,
            files,
        }
    }
}

/// The last segment of a path, unless it leads to the parent directory.
pub open spec fn file_name(path: Seq<char>) -> Option<Seq<char>> {
    let parts = paths::segments(path);
    if parts.len() == 0 || parts.last() == ".."@ {
        None
    } else {
        Some(parts.last())
    }
}

fn file_name_of(path: &str) -> (out: Option<String>)
    ensures
        out.deep_view() == file_name(path@),
{
    let parts = paths::segments_of(path);
    if parts.len() == 0 {
        return None;
    }
    let name = &parts[parts.len() - 1];
    assert(parts.deep_view().last() == name@);
    if text::same(name.as_str(), "..") {
        None
    } else {
        Some(name.clone())
    }
}

/// What stands behind the last dot of a file name, where something stands before it.
pub open spec fn name_extension(name: Seq<char>) -> Option<Seq<char>> {
    match text::last_index(name, '.') {
        Some(dot) => if dot > 0 {
            Some(name.skip(dot + 1))
        } else {
            None
        },
        None => None,
    }
}

/// The extension of a path's file name, as it is written.
pub open spec fn written_extension(path: Seq<char>) -> Option<Seq<char>> {
    match file_name(path) {
        Some(name) => name_extension(name),
        None => None,
    }
}

/// The extension of a path's file name, as it is written.
pub fn extension_as_written(path: &str) -> (out: Option<String>)
    ensures
        out.deep_view() == written_extension(path@),
{
    let name = match file_name_of(path) {
        Some(name) => name,
        None => return None,
    };
    let chars = text::chars_of(name.as_str());
    match text::find_last(chars.as_slice(), '.') {
        Some(dot) => {
            if dot == 0 {
                return None;
            }
            let rest = vstd::slice::slice_subrange(chars.as_slice(), dot + 1, chars.len());
            assert(rest@ =~= chars@.skip(dot + 1));
            Some(text::string_of(rest))
        },
        None => None,
    }
}

/// The extension of a path's file name, in lower case.
pub open spec fn extension_of(path: Seq<char>) -> Option<Seq<char>> {
    match written_extension(path) {
        Some(extension) => Some(text::lowered(extension)),
        None => None,
    }
}

/// The extension of a path's file name, in lower case.
pub fn file_extension(path: &str) -> (out: Option<String>)
    ensures
        out.deep_view() == extension_of(path@),
{
    match extension_as_written(path) {
        Some(extension) => Some(text::to_lower(extension.as_str())),
        None => None,
    }
}

/// The language of an extension.
pub open spec fn language_of_extension(extension: Seq<char>) -> Option<Seq<char>> {
    if extension == "bash"@ || extension == "sh"@ || extension == "zsh"@ {
        Some("Shell"@)
    } else if extension == "c"@ {
        Some("C"@)
    } else if extension == "cc"@ || extension == "cpp"@ || extension == "cxx"@ || extension == "hpp"@ || extension == "hh"@ || extension == "hxx"@ {
        Some("C++"@)
    } else if extension == "cs"@ {
        Some("C#"@)
    } else if extension == "css"@ {
        Some("CSS"@)
    } else if extension == "go"@ {
        Some("Go"@)
    } else if extension == "h"@ {
        Some("C/C++ Header"@)
    } else if extension == "htm"@ || extension == "html"@ {
        Some("HTML"@)
    } else if extension == "java"@ {
        Some("Java"@)
    } else if extension == "js"@ || extension == "mjs"@ || extension == "cjs"@ {
        Some("JavaScript"@)
    } else if extension == "json"@ {
        Some("JSON"@)
    } else if extension == "jsx"@ {
        Some("JavaScript JSX"@)
    } else if extension == "kt"@ || extension == "kts"@ {
        Some("Kotlin"@)
    } else if extension == "md"@ || extension == "markdown"@ {
        Some("Markdown"@)
    } else if extension == "php"@ {
        Some("PHP"@)
    } else if extension == "proto"@ {
        Some("Protocol Buffers"@)
    } else if extension == "ps1"@ {
        Some("PowerShell"@)
    } else if extension == "py"@ {
        Some("Python"@)
    } else if extension == "rb"@ {
        Some("Ruby"@)
    } else if extension == "rs"@ {
        Some("Rust"@)
    } else if extension == "scala"@ {
        Some("Scala"@)
    } else if extension == "scss"@ {
        Some("Sass"@)
    } else if extension == "sql"@ {
        Some("SQL"@)
    } else if extension == "swift"@ {
        Some("Swift"@)
    } else if extension == "toml"@ {
        Some("TOML"@)
    } else if extension == "ts"@ {
        Some("TypeScript"@)
    } else if extension == "tsx"@ {
        Some("TypeScript JSX"@)
    } else if extension == "xml"@ {
        Some("XML"@)
    } else if extension == "yaml"@ || extension == "yml"@ {
        Some("YAML"@)
    } else {
        None
    }
}

fn language_for_extension(extension: &str) -> (out: Option<&'static str>)
    ensures
        out.deep_view() == language_of_extension(extension@),
{
    if text::same(extension, "bash") || text::same(extension, "sh") || text::same(extension, "zsh") {
        Some("Shell")
    } else if text::same(extension, "c") {
        Some("C")
    } else if text::same(extension, "cc") || text::same(extension, "cpp") || text::same(extension, "cxx") || text::same(extension, "hpp") || text::same(extension, "hh") || text::same(extension, "hxx") {
        Some("C++")
    } else if text::same(extension, "cs") {
        Some("C#")
    } else if text::same(extension, "css") {
        Some("CSS")
    } else if text::same(extension, "go") {
        Some("Go")
    } else if text::same(extension, "h") {
        Some("C/C++ Header")
    } else if text::same(extension, "htm") || text::same(extension, "html") {
        Some("HTML")
    } else if text::same(extension, "java") {
        Some("Java")
    } else if text::same(extension, "js") || text::same(extension, "mjs") || text::same(extension, "cjs") {
        Some("JavaScript")
    } else if text::same(extension, "json") {
        Some("JSON")
    } else if text::same(extension, "jsx") {
        Some("JavaScript JSX")
    } else if text::same(extension, "kt") || text::same(extension, "kts") {
        Some("Kotlin")
    } else if text::same(extension, "md") || text::same(extension, "markdown") {
        Some("Markdown")
    } else if text::same(extension, "php") {
        Some("PHP")
    } else if text::same(extension, "proto") {
        Some("Protocol Buffers")
    } else if text::same(extension, "ps1") {
        Some("PowerShell")
    } else if text::same(extension, "py") {
        Some("Python")
    } else if text::same(extension, "rb") {
        Some("Ruby")
    } else if text::same(extension, "rs") {
        Some("Rust")
    } else if text::same(extension, "scala") {
        Some("Scala")
    } else if text::same(extension, "scss") {
        Some("Sass")
    } else if text::same(extension, "sql") {
        Some("SQL")
    } else if text::same(extension, "swift") {
        Some("Swift")
    } else if text::same(extension, "toml") {
        Some("TOML")
    } else if text::same(extension, "ts") {
        Some("TypeScript")
    } else if text::same(extension, "tsx") {
        Some("TypeScript JSX")
    } else if text::same(extension, "xml") {
        Some("XML")
    } else if text::same(extension, "yaml") || text::same(extension, "yml") {
        Some("YAML")
    } else {
        None
    }
}

/// The language of a file: a few file names have one, else the extension decides.
pub open spec fn language_of(path: Seq<char>) -> Option<Seq<char>> {
    match file_name(path) {
        None => None,
        Some(name) => if name == "Dockerfile"@ || name == "Containerfile"@ {
            Some("Dockerfile"@)
        } else if name == "Makefile"@ {
            Some("Makefile"@)
        } else {
            match extension_of(path) {
                Some(extension) => language_of_extension(extension),
                None => None,
            }
        },
    }
}

/// The language of a file: a few file names have one, else the extension decides.
pub fn language_guess(path: &str) -> (out: Option<&'static str>)
    ensures
        out.deep_view() == language_of(path@),
{
    let name = match file_name_of(path) {
        Some(name) => name,
        None => return None,
    };
    if text::same(name.as_str(), "Dockerfile") || text::same(name.as_str(), "Containerfile") {
        return Some("Dockerfile");
    }
    if text::same(name.as_str(), "Makefile") {
        return Some("Makefile");
    }
    match file_extension(path) {
        Some(extension) => language_for_extension(extension.as_str()),
        None => None,
    }
}

/// A path component as a directory name is recognised: trimmed and in lower case.
pub open spec fn component_word(component: Seq<char>) -> Seq<char> {
    text::lowered(text::trimmed(component))
}

/// Whether a word names a directory of third-party code.
pub open spec fn is_vendor_word(word: Seq<char>) -> bool {
    word == "node_modules"@ || word == "vendor"@ || word == "third_party"@ || word == "third-party"@ || word == "external"@
}

/// Whether a word names a directory of generated code.
pub open spec fn is_generated_word(word: Seq<char>) -> bool {
    word == "generated"@ || word == "gen"@ || word == "codegen"@ || word == "dist"@ || word == "build"@
}

fn vendor_word(word: &str) -> (r: bool)
    ensures
        r == is_vendor_word(word@),
{
    text::same(word, "node_modules") || text::same(word, "vendor") || text::same(word, "third_party") || text::same(word, "third-party") || text::same(word, "external")
}

fn generated_word(word: &str) -> (r: bool)
    ensures
        r == is_generated_word(word@),
{
    text::same(word, "generated") || text::same(word, "gen") || text::same(word, "codegen") || text::same(word, "dist") || text::same(word, "build")
}

/// Whether a path lies in a directory of third-party code.
pub open spec fn in_vendor_directory(path: Seq<char>) -> bool {
    let parts = text::split_on(path, '/');
    exists|i: int|
        0 <= i < parts.len() && (#[trigger] parts[i]).len() > 0 && is_vendor_word(
            component_word(parts[i]),
        )
}

/// Whether a path lies in a directory of generated code.
pub open spec fn in_generated_directory(path: Seq<char>) -> bool {
    let parts = text::split_on(path, '/');
    exists|i: int|
        0 <= i < parts.len() && (#[trigger] parts[i]).len() > 0 && is_generated_word(
            component_word(parts[i]),
        )
}

/// Whether a file name marks generated code.
pub open spec fn is_generated_name(name: Seq<char>) -> bool {
    ||| text::holds_part(name, ".generated."@)
    ||| text::holds_part(name, ".gen."@)
    ||| text::finishes_with(name, ".pb.go"@)
    ||| text::finishes_with(name, ".pb.rs"@)
    ||| text::finishes_with(name, ".g.cs"@)
}

/// Whether a path holds generated code.
pub open spec fn is_generated(path: Seq<char>) -> bool {
    let name = match file_name(path) {
        Some(name) => name,
        None => Seq::empty(),
    };
    in_generated_directory(path) || is_generated_name(text::lowered(name))
}

/// Whether a path lies in a directory of third-party code.
pub fn is_vendor_path(path: &str) -> (r: bool)
    ensures
        r == in_vendor_directory(path@),
{
    let parts = text::split_text(path, '/');
    let ghost all = parts.deep_view();
    let mut i: usize = 0;
    while i < parts.len()
        invariant
            i <= parts.len(),
            all == parts.deep_view(),
            all == text::split_on(path@, '/'),
            forall|j: int|
                0 <= j < i ==> !((#[trigger] all[j]).len() > 0 && is_vendor_word(
                    component_word(all[j]),
                )),
        decreases parts.len() - i,
    {
        assert(all[i as int] == parts@[i as int]@);
        if !parts[i].as_str().is_empty() {
            let trimmed = text::trim(parts[i].as_str());
            let word = text::to_lower(trimmed.as_str());
            if vendor_word(word.as_str()) {
                return true;
            }
        }
        i = i + 1;
    }
    false
}

fn in_generated_dir(path: &str) -> (r: bool)
    ensures
        r == in_generated_directory(path@),
{
    let parts = text::split_text(path, '/');
    let ghost all = parts.deep_view();
    let mut i: usize = 0;
    while i < parts.len()
        invariant
            i <= parts.len(),
            all == parts.deep_view(),
            all == text::split_on(path@, '/'),
            forall|j: int|
                0 <= j < i ==> !((#[trigger] all[j]).len() > 0 && is_generated_word(
                    component_word(all[j]),
                )),
        decreases parts.len() - i,
    {
        assert(all[i as int] == parts@[i as int]@);
        if !parts[i].as_str().is_empty() {
            let trimmed = text::trim(parts[i].as_str());
            let word = text::to_lower(trimmed.as_str());
            if generated_word(word.as_str()) {
                return true;
            }
        }
        i = i + 1;
    }
    false
}

/// Whether a path holds generated code.
pub fn is_generated_path(path: &str) -> (r: bool)
    ensures
        r == is_generated(path@),
{
    let name = match file_name_of(path) {
        Some(name) => name,
        None => String::new(),
    };
    let name = text::to_lower(name.as_str());
    in_generated_dir(path) || text::contains(name.as_str(), ".generated.") || text::contains(
        name.as_str(),
        ".gen.",
    ) || text::ends_with(name.as_str(), ".pb.go") || text::ends_with(name.as_str(), ".pb.rs")
        || text::ends_with(name.as_str(), ".g.cs")
}

/// Whether a warning means that something could not be read.
pub open spec fn is_unreadable(code: Seq<char>) -> bool {
    code == "metadata_failed"@ || code == "read_failed"@ || code == "symlink_target_unreadable"@ || code == "walk_io_error"@
}

/// Whether a warning means that something was skipped.
pub open spec fn is_skipped(code: Seq<char>) -> bool {
    code == "line_count_skipped"@ || code == "symlink_target_outside_root"@ || code == "unsupported_file_type"@ || code == "walk_error"@ || code == "walk_io_error"@
}

/// Whether a warning means that something could not be read.
pub fn is_unreadable_warning(code: &str) -> (r: bool)
    ensures
        r == is_unreadable(code@),
{
    text::same(code, "metadata_failed") || text::same(code, "read_failed") || text::same(code, "symlink_target_unreadable") || text::same(code, "walk_io_error")
}

/// Whether a warning means that something was skipped.
pub fn is_skipped_warning(code: &str) -> (r: bool)
    ensures
        r == is_skipped(code@),
{
    text::same(code, "line_count_skipped") || text::same(code, "symlink_target_outside_root") || text::same(code, "unsupported_file_type") || text::same(code, "walk_error") || text::same(code, "walk_io_error")
}

} // verus!
