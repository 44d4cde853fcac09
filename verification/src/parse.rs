//! Parsing the sources of a repository: symbols, imports and complexity.

pub mod extract;
pub mod found;
pub mod laws;
pub mod outputs;
pub mod receivers;
pub mod report;
pub mod scopes;

use vstd::prelude::*;

use crate::scan::ContentKind;

verus! {

pub const PARSE_SCHEMA_VERSION: &'static str = "hotpath.parse.v1";

/// What became of a file.
#[derive(Debug, Clone, Copy, PartialEq, Eq, Structural)]
pub enum ParseFileStatus {
    Parsed,
    Pending,
    Skipped,
}

/// Why a file is not parsed.
#[derive(Debug, Clone, Copy, PartialEq, Eq, Structural)]
pub enum ParseFileReason {
    ParserExtractionPending,
    UnsupportedContent,
    UnsupportedLanguage,
    UnsupportedEncoding,
    ReadFailed,
    ParseFailed,
}

/// Something that went wrong while parsing.
#[derive(Debug, Clone, PartialEq, Eq)]
pub struct ParseWarning {
    pub code: &'static str,
    pub path: Option<String>,
    pub message: String,
}

/// What became of one file.
#[derive(Debug, Clone, PartialEq, Eq)]
pub struct ParseFileRecord {
    pub path: String,
    pub language: Option<&'static str>,
    pub content: ContentKind,
    pub status: ParseFileStatus,
    pub reason: Option<ParseFileReason>,
    pub symbol_count: u64,
    pub import_count: u64,
}

/// A symbol that a source declares.
#[derive(Debug, Clone, PartialEq, Eq)]
pub struct ParseSymbolRecord {
    pub path: String,
    pub name: String,
    pub kind: String,
    pub start_line: u64,
    pub end_line: u64,
    pub signature: Option<String>,
    pub nesting_depth: u64,
    pub parent: Option<String>,
    pub cyclomatic_complexity: Option<u64>,
    pub max_control_flow_nesting: Option<u64>,
}

/// Something that a source imports.
#[derive(Debug, Clone, PartialEq, Eq)]
pub struct ParseImportRecord {
    pub path: String,
    pub target: String,
    pub kind: String,
    pub start_line: u64,
    pub end_line: u64,
}

/// The totals of a parse.
#[derive(Debug, Clone, Copy, PartialEq, Eq, Structural)]
pub struct ParseSummary {
    pub total_files: u64,
    pub candidate_files: u64,
    pub parsed_files: u64,
    pub pending_files: u64,
    pub skipped_files: u64,
    pub symbol_count: u64,
    pub import_count: u64,
    pub warning_count: u64,
}

/// The result of parsing a repository.
#[derive(Debug, Clone, PartialEq, Eq)]
pub struct ParseReport {
    pub warnings: Vec<ParseWarning>,
    pub files: Vec<ParseFileRecord>,
    pub symbols: Vec<ParseSymbolRecord>,
    pub imports: Vec<ParseImportRecord>,
}

/// What one source holds.
#[derive(Debug, Clone, PartialEq, Eq)]
pub struct FileExtraction {
    /// Whether there is a syntax tree.
    pub parsed: bool,
    pub warnings: Vec<ParseWarning>,
    pub symbols: Vec<ParseSymbolRecord>,
    pub imports: Vec<ParseImportRecord>,
}

impl DeepView for ParseFileStatus {
    type V = ParseFileStatus;

    open spec fn deep_view(&self) -> ParseFileStatus {
        *self
    }
}

impl DeepView for ParseFileReason {
    type V = ParseFileReason;

    open spec fn deep_view(&self) -> ParseFileReason {
        *self
    }
}

impl DeepView for ParseSummary {
    type V = ParseSummary;

    open spec fn deep_view(&self) -> ParseSummary {
        *self
    }
}

/// What a [`ParseWarning`] stands for.
#[verifier::ext_equal]
pub struct ParseWarningView {
    pub code: Seq<char>,
    pub path: Option<Seq<char>>,
    pub message: Seq<char>,
}

impl DeepView for ParseWarning {
    type V = ParseWarningView;

    open spec fn deep_view(&self) -> ParseWarningView {
        ParseWarningView {
            code: self.code@,
            path: self.path.deep_view(),
            message: self.message@,
        }
    }
}

/// What a [`ParseFileRecord`] stands for.
#[verifier::ext_equal]
pub struct ParseFileRecordView {
    pub path: Seq<char>,
    pub language: Option<Seq<char>>,
    pub content: ContentKind,
    pub status: ParseFileStatus,
    pub reason: Option<ParseFileReason>,
    pub symbol_count: u64,
    pub import_count: u64,
}

impl DeepView for ParseFileRecord {
    type V = ParseFileRecordView;

    open spec fn deep_view(&self) -> ParseFileRecordView {
        ParseFileRecordView {
            path: self.path@,
            language: self.language.deep_view(),
            content: self.content,
            status: self.status,
            reason: self.reason.deep_view(),
            symbol_count: self.symbol_count,
            import_count: self.import_count,
        }
    }
}

/// What a [`ParseSymbolRecord`] stands for.
#[verifier::ext_equal]
pub struct ParseSymbolRecordView {
    pub path: Seq<char>,
    pub name: Seq<char>,
    pub kind: Seq<char>,
    pub start_line: u64,
    pub end_line: u64,
    pub signature: Option<Seq<char>>,
    pub nesting_depth: u64,
    pub parent: Option<Seq<char>>,
    pub cyclomatic_complexity: Option<u64>,
    pub max_control_flow_nesting: Option<u64>,
}

impl DeepView for ParseSymbolRecord {
    type V = ParseSymbolRecordView;

    open spec fn deep_view(&self) -> ParseSymbolRecordView {
        ParseSymbolRecordView {
            path: self.path@,
            name: self.name@,
            kind: self.kind@,
            start_line: self.start_line,
            end_line: self.end_line,
            signature: self.signature.deep_view(),
            nesting_depth: self.nesting_depth,
            parent: self.parent.deep_view(),
            cyclomatic_complexity: self.cyclomatic_complexity.deep_view(),
            max_control_flow_nesting: self.max_control_flow_nesting.deep_view(),
        }
    }
}

/// What a [`ParseImportRecord`] stands for.
#[verifier::ext_equal]
pub struct ParseImportRecordView {
    pub path: Seq<char>,
    pub target: Seq<char>,
    pub kind: Seq<char>,
    pub start_line: u64,
    pub end_line: u64,
}

impl DeepView for ParseImportRecord {
    type V = ParseImportRecordView;

    open spec fn deep_view(&self) -> ParseImportRecordView {
        ParseImportRecordView {
            path: self.path@,
            target: self.target@,
            kind: self.kind@,
            start_line: self.start_line,
            end_line: self.end_line,
        }
    }
}

/// What a [`ParseReport`] stands for.
#[verifier::ext_equal]
pub struct ParseReportView {
    pub warnings: Seq<ParseWarningView>,
    pub files: Seq<ParseFileRecordView>,
    pub symbols: Seq<ParseSymbolRecordView>,
    pub imports: Seq<ParseImportRecordView>,
}

impl DeepView for ParseReport {
    type V = ParseReportView;

    open spec fn deep_view(&self) -> ParseReportView {
        ParseReportView {
            warnings: self.warnings.deep_view(),
            files: self.files.deep_view(),
            symbols: self.symbols.deep_view(),
            imports: self.imports.deep_view(),
        }
    }
}

/// What a [`FileExtraction`] stands for.
#[verifier::ext_equal]
pub struct FileExtractionView {
    pub parsed: bool,
    pub warnings: Seq<ParseWarningView>,
    pub symbols: Seq<ParseSymbolRecordView>,
    pub imports: Seq<ParseImportRecordView>,
}

impl DeepView for FileExtraction {
    type V = FileExtractionView;

    open spec fn deep_view(&self) -> FileExtractionView {
        FileExtractionView {
            parsed: self.parsed,
            warnings: self.warnings.deep_view(),
            symbols: self.symbols.deep_view(),
            imports: self.imports.deep_view(),
        }
    }
}

} // verus!
