//! The report on parsing a repository: what each file adds, totals and order.

use vstd::prelude::*;

use crate::numbers;
use crate::order;
use crate::order::{KeyPart, Ordered};
use crate::parse::extract;
use crate::parse::{
    FileExtraction, FileExtractionView, ParseFileReason, ParseFileRecord, ParseFileRecordView,
    ParseFileStatus, ParseImportRecord, ParseImportRecordView, ParseReport, ParseReportView,
    ParseSummary, ParseSymbolRecord, ParseSymbolRecordView, ParseWarning, ParseWarningView,
};
use crate::scan::{
    ContentKind, FileRecord, FileRecordView, FileWarningView, ScanReport, ScanReportView,
    ScanWarningView,
};
use crate::syntax;
use crate::syntax::SupportedLanguage;
use crate::text;

verus! {

/// What became of reading a source.
#[derive(Debug, Clone, PartialEq, Eq)]
pub enum SourceRead {
    Text(String),
    NotUtf8,
    Failed { message: String },
}

/// What one file adds to a report.
#[derive(Debug, Clone, PartialEq, Eq)]
pub struct FileParseOutput {
    pub file: ParseFileRecord,
    pub warnings: Vec<ParseWarning>,
    pub symbols: Vec<ParseSymbolRecord>,
    pub imports: Vec<ParseImportRecord>,
    pub counted_for_progress: bool,
}

/// How far parsing has come.
#[derive(Debug, Clone, PartialEq, Eq)]
pub struct ParseProgress {
    pub completed_files: usize,
    pub total_files: usize,
    pub path: String,
}

/// What a [`SourceRead`] stands for.
#[verifier::ext_equal]
pub enum SourceReadView {
    Text(Seq<char>),
    NotUtf8,
    Failed { message: Seq<char> },
}

impl DeepView for SourceRead {
    type V = SourceReadView;

    open spec fn deep_view(&self) -> SourceReadView {
        match self {
            SourceRead::Text(inner) => SourceReadView::Text(inner@),
            SourceRead::NotUtf8 => SourceReadView::NotUtf8,
            SourceRead::Failed { message } => SourceReadView::Failed { message: message@ },
        }
    }
}

/// What a [`FileParseOutput`] stands for.
#[verifier::ext_equal]
pub struct FileParseOutputView {
    pub file: ParseFileRecordView,
    pub warnings: Seq<ParseWarningView>,
    pub symbols: Seq<ParseSymbolRecordView>,
    pub imports: Seq<ParseImportRecordView>,
    pub counted_for_progress: bool,
}

impl DeepView for FileParseOutput {
    type V = FileParseOutputView;

    open spec fn deep_view(&self) -> FileParseOutputView {
        FileParseOutputView {
            file: self.file.deep_view(),
            warnings: self.warnings.deep_view(),
            symbols: self.symbols.deep_view(),
            imports: self.imports.deep_view(),
            counted_for_progress: self.counted_for_progress,
        }
    }
}

/// What a [`ParseProgress`] stands for.
#[verifier::ext_equal]
pub struct ParseProgressView {
    pub completed_files: usize,
    pub total_files: usize,
    pub path: Seq<char>,
}

impl DeepView for ParseProgress {
    type V = ParseProgressView;

    open spec fn deep_view(&self) -> ParseProgressView {
        ParseProgressView {
            completed_files: self.completed_files,
            total_files: self.total_files,
            path: self.path@,
        }
    }
}

impl Ordered for ParseSymbolRecord {
    /// Symbols are ordered by path, lines, kind and name.
    open spec fn key(v: ParseSymbolRecordView) -> Seq<KeyPart> {
        seq![
            KeyPart::Text(v.path),
            KeyPart::Number(v.start_line as int),
            KeyPart::Number(v.end_line as int),
            KeyPart::Text(v.kind),
            KeyPart::Text(v.name),
        ]
    }

    fn comes_before(&self, other: &Self) -> (r: bool) {
        proof {
            reveal_with_fuel(order::key_lt_from, 6);
        }
        if text::precedes(self.path.as_str(), other.path.as_str()) {
            return true;
        }
        if text::precedes(other.path.as_str(), self.path.as_str()) {
            return false;
        }
        if self.start_line < other.start_line {
            return true;
        }
        if other.start_line < self.start_line {
            return false;
        }
        if self.end_line < other.end_line {
            return true;
        }
        if other.end_line < self.end_line {
            return false;
        }
        if text::precedes(self.kind.as_str(), other.kind.as_str()) {
            return true;
        }
        if text::precedes(other.kind.as_str(), self.kind.as_str()) {
            return false;
        }
        text::precedes(self.name.as_str(), other.name.as_str())
    }
}

impl Ordered for ParseImportRecord {
    /// Imports are ordered by path, lines, kind and target.
    open spec fn key(v: ParseImportRecordView) -> Seq<KeyPart> {
        seq![
            KeyPart::Text(v.path),
            KeyPart::Number(v.start_line as int),
            KeyPart::Number(v.end_line as int),
            KeyPart::Text(v.kind),
            KeyPart::Text(v.target),
        ]
    }

    fn comes_before(&self, other: &Self) -> (r: bool) {
        proof {
            reveal_with_fuel(order::key_lt_from, 6);
        }
        if text::precedes(self.path.as_str(), other.path.as_str()) {
            return true;
        }
        if text::precedes(other.path.as_str(), self.path.as_str()) {
            return false;
        }
        if self.start_line < other.start_line {
            return true;
        }
        if other.start_line < self.start_line {
            return false;
        }
        if self.end_line < other.end_line {
            return true;
        }
        if other.end_line < self.end_line {
            return false;
        }
        if text::precedes(self.kind.as_str(), other.kind.as_str()) {
            return true;
        }
        if text::precedes(other.kind.as_str(), self.kind.as_str()) {
            return false;
        }
        text::precedes(self.target.as_str(), other.target.as_str())
    }
}

impl Ordered for ParseWarning {
    /// Warnings are ordered by path, those without one first, then by code and message.
    open spec fn key(v: ParseWarningView) -> Seq<KeyPart> {
        match v.path {
            None => seq![
                KeyPart::Number(0),
                KeyPart::Text(Seq::empty()),
                KeyPart::Text(v.code),
                KeyPart::Text(v.message),
            ],
            Some(path) => seq![
                KeyPart::Number(1),
                KeyPart::Text(path),
                KeyPart::Text(v.code),
                KeyPart::Text(v.message),
            ],
        }
    }

    fn comes_before(&self, other: &Self) -> (r: bool) {
        proof {
            reveal_with_fuel(order::key_lt_from, 5);
            text::text_lt_irreflexive(Seq::empty());
        }
        match (&self.path, &other.path) {
            (None, Some(_)) => {
                return true;
            },
            (Some(_), None) => {
                return false;
            },
            (Some(mine), Some(theirs)) => {
                if text::precedes(mine.as_str(), theirs.as_str()) {
                    return true;
                }
                if text::precedes(theirs.as_str(), mine.as_str()) {
                    return false;
                }
            },
            (None, None) => {},
        }
        if text::precedes(self.code, other.code) {
            return true;
        }
        if text::precedes(other.code, self.code) {
            return false;
        }
        text::precedes(self.message.as_str(), other.message.as_str())
    }
}

/// Whether a file was worth parsing: a text in a language that is parsed.
pub open spec fn is_candidate(file: ParseFileRecordView) -> bool {
    file.reason != Some(ParseFileReason::UnsupportedContent) && file.reason != Some(
        ParseFileReason::UnsupportedLanguage,
    )
}

/// How many files are worth parsing.
pub open spec fn candidate_count(files: Seq<ParseFileRecordView>) -> nat
    decreases files.len(),
{
    if files.len() == 0 {
        0
    } else {
        candidate_count(files.drop_last()) + if is_candidate(files.last()) {
            1nat
        } else {
            0
        }
    }
}

/// How many files have a status.
pub open spec fn status_count(files: Seq<ParseFileRecordView>, status: ParseFileStatus) -> nat
    decreases files.len(),
{
    if files.len() == 0 {
        0
    } else {
        status_count(files.drop_last(), status) + if files.last().status == status {
            1nat
        } else {
            0
        }
    }
}

/// Every file is parsed, pending or skipped.
pub proof fn statuses_add_up(files: Seq<ParseFileRecordView>)
    ensures
        status_count(files, ParseFileStatus::Parsed) + status_count(files, ParseFileStatus::Pending)
            + status_count(files, ParseFileStatus::Skipped) == files.len(),
    decreases files.len(),
{
    if files.len() > 0 {
        statuses_add_up(files.drop_last());
    }
}

/// The totals of a report.
pub open spec fn summary_of(report: ParseReportView) -> ParseSummary {
    ParseSummary {
        total_files: report.files.len() as u64,
        candidate_files: candidate_count(report.files) as u64,
        parsed_files: status_count(report.files, ParseFileStatus::Parsed) as u64,
        pending_files: status_count(report.files, ParseFileStatus::Pending) as u64,
        skipped_files: status_count(report.files, ParseFileStatus::Skipped) as u64,
        symbol_count: report.symbols.len() as u64,
        import_count: report.imports.len() as u64,
        warning_count: report.warnings.len() as u64,
    }
}

impl ParseReport {
    /// The totals of the report.
    pub fn summary(&self) -> (summary: ParseSummary)
        ensures
            summary == summary_of(self.deep_view()),
    {
        let ghost files = self.files.deep_view();
        let mut candidates: u64 = 0;
        let mut parsed: u64 = 0;
        let mut pending: u64 = 0;
        let mut skipped: u64 = 0;
        let mut i: usize = 0;
        while i < self.files.len()
            invariant
                i <= self.files.len(),
                files == self.files.deep_view(),
                candidates == candidate_count(files.take(i as int)),
                parsed == status_count(files.take(i as int), ParseFileStatus::Parsed),
                pending == status_count(files.take(i as int), ParseFileStatus::Pending),
                skipped == status_count(files.take(i as int), ParseFileStatus::Skipped),
                candidates <= i,
                parsed <= i,
                pending <= i,
                skipped <= i,
            decreases self.files.len() - i,
        {
            let file = &self.files[i];
            assert(files.take(i + 1).drop_last() =~= files.take(i as int));
            assert(files.take(i + 1).last() == file.deep_view());
            if is_candidate_file_record(file) {
                candidates = candidates + 1;
            }
            match file.status {
                ParseFileStatus::Parsed => {
                    parsed = parsed + 1;
                },
                ParseFileStatus::Pending => {
                    pending = pending + 1;
                },
                ParseFileStatus::Skipped => {
                    skipped = skipped + 1;
                },
            }
            i = i + 1;
        }
        assert(files.take(i as int) =~= files);
        ParseSummary {
            total_files: self.files.len() as u64,
            candidate_files: candidates,
            parsed_files: parsed,
            pending_files: pending,
            skipped_files: skipped,
            symbol_count: self.symbols.len() as u64,
            import_count: self.imports.len() as u64,
            warning_count: self.warnings.len() as u64,
        }
    }
}

fn is_candidate_file_record(file: &ParseFileRecord) -> (r: bool)
    ensures
        r == is_candidate(file.deep_view()),
{
    match file.reason {
        Some(ParseFileReason::UnsupportedContent) => false,
        Some(ParseFileReason::UnsupportedLanguage) => false,
        _ => true,
    }
}

/// The warnings of a walk, as warnings of a parse.
pub open spec fn walk_warnings(warnings: Seq<ScanWarningView>) -> Seq<ParseWarningView> {
    Seq::new(
        warnings.len(),
        |i: int|
            ParseWarningView {
                code: warnings[i].code,
                path: warnings[i].path,
                message: warnings[i].message,
            },
    )
}

/// The warnings of one file, as warnings of a parse.
pub open spec fn own_warnings(path: Seq<char>, warnings: Seq<FileWarningView>) -> Seq<
    ParseWarningView,
> {
    Seq::new(
        warnings.len(),
        |i: int|
            ParseWarningView {
                code: warnings[i].code,
                path: Some(path),
                message: warnings[i].message,
            },
    )
}

/// The warnings of all files, in the order of the files.
pub open spec fn files_warnings(files: Seq<FileRecordView>) -> Seq<ParseWarningView>
    decreases files.len(),
{
    if files.len() == 0 {
        Seq::empty()
    } else {
        files_warnings(files.drop_last()) + own_warnings(files.last().path, files.last().warnings)
    }
}

/// All that a scan warns of.
pub open spec fn scan_warnings(scan: ScanReportView) -> Seq<ParseWarningView> {
    walk_warnings(scan.warnings) + files_warnings(scan.files)
}

fn parse_warnings_from_scan(scan: &ScanReport) -> (out: Vec<ParseWarning>)
    ensures
        out.deep_view() == scan_warnings(scan.deep_view()),
{
    let ghost walked = walk_warnings(scan.warnings.deep_view());
    let ghost files = scan.files.deep_view();
    let mut out: Vec<ParseWarning> = Vec::new();
    let mut i: usize = 0;
    while i < scan.warnings.len()
        invariant
            i <= scan.warnings.len(),
            walked == walk_warnings(scan.warnings.deep_view()),
            out.deep_view() == walked.take(i as int),
        decreases scan.warnings.len() - i,
    {
        let warning = &scan.warnings[i];
        assert(scan.warnings.deep_view()[i as int] == warning.deep_view());
        let ghost before = out.deep_view();
        let path = clone_path(&warning.path);
        let copy = ParseWarning { code: warning.code, path, message: warning.message.clone() };
        out.push(copy);
        assert(out.deep_view() =~= before.push(copy.deep_view()));
        i = i + 1;
        assert(out.deep_view() =~= walked.take(i as int));
    }
    assert(walked.take(i as int) =~= walked);
    let mut j: usize = 0;
    assert(walked + files_warnings(files.take(0)) =~= walked);
    while j < scan.files.len()
        invariant
            j <= scan.files.len(),
            files == scan.files.deep_view(),
            out.deep_view() == walked + files_warnings(files.take(j as int)),
        decreases scan.files.len() - j,
    {
        let file = &scan.files[j];
        assert(files.take(j + 1).drop_last() =~= files.take(j as int));
        assert(files.take(j + 1).last() == file.deep_view());
        let ghost start = out.deep_view();
        let ghost own = own_warnings(file.path@, file.warnings.deep_view());
        let mut k: usize = 0;
        assert(start + own.take(0) =~= start);
        while k < file.warnings.len()
            invariant
                k <= file.warnings.len(),
                own == own_warnings(file.path@, file.warnings.deep_view()),
                out.deep_view() == start + own.take(k as int),
            decreases file.warnings.len() - k,
        {
            let warning = &file.warnings[k];
            assert(file.warnings.deep_view()[k as int] == warning.deep_view());
            let ghost before = out.deep_view();
            let copy = ParseWarning {
                code: warning.code,
                path: Some(file.path.clone()),
                message: warning.message.clone(),
            };
            out.push(copy);
            assert(out.deep_view() =~= before.push(copy.deep_view()));
            k = k + 1;
            assert(out.deep_view() =~= start + own.take(k as int));
        }
        assert(own.take(k as int) =~= own);
        j = j + 1;
        assert(out.deep_view() =~= walked + files_warnings(files.take(j as int)));
    }
    assert(files.take(j as int) =~= files);
    out
}

fn clone_path(path: &Option<String>) -> (out: Option<String>)
    ensures
        out.deep_view() == path.deep_view(),
{
    match path {
        Some(path) => Some(path.clone()),
        None => None,
    }
}

/// The language that a file is parsed in: by its extension, else by its language.
pub open spec fn language_of(file: FileRecordView) -> Option<SupportedLanguage> {
    if file.extension == Some("rs"@) {
        Some(SupportedLanguage::Rust)
    } else if file.extension == Some("go"@) {
        Some(SupportedLanguage::Go)
    } else if file.extension == Some("ts"@) {
        Some(SupportedLanguage::TypeScript)
    } else if file.extension == Some("tsx"@) {
        Some(SupportedLanguage::Tsx)
    } else if file.language == Some("Rust"@) {
        Some(SupportedLanguage::Rust)
    } else if file.language == Some("Go"@) {
        Some(SupportedLanguage::Go)
    } else if file.language == Some("TypeScript"@) {
        Some(SupportedLanguage::TypeScript)
    } else if file.language == Some("TypeScript JSX"@) {
        Some(SupportedLanguage::Tsx)
    } else {
        None
    }
}

/// The language that a file is parsed in: by its extension, else by its language.
pub fn supported_language(file: &FileRecord) -> (out: Option<SupportedLanguage>)
    ensures
        out == language_of(file.deep_view()),
{
    match &file.extension {
        Some(extension) => {
            let extension = extension.as_str();
            if text::same(extension, "rs") {
                return Some(SupportedLanguage::Rust);
            }
            if text::same(extension, "go") {
                return Some(SupportedLanguage::Go);
            }
            if text::same(extension, "ts") {
                return Some(SupportedLanguage::TypeScript);
            }
            if text::same(extension, "tsx") {
                return Some(SupportedLanguage::Tsx);
            }
        },
        None => {},
    }
    match file.language {
        Some(language) => if text::same(language, "Rust") {
            Some(SupportedLanguage::Rust)
        } else if text::same(language, "Go") {
            Some(SupportedLanguage::Go)
        } else if text::same(language, "TypeScript") {
            Some(SupportedLanguage::TypeScript)
        } else if text::same(language, "TypeScript JSX") {
            Some(SupportedLanguage::Tsx)
        } else {
            None
        },
        None => None,
    }
}

/// The record of a file.
pub open spec fn file_record(
    file: FileRecordView,
    status: ParseFileStatus,
    reason: Option<ParseFileReason>,
    symbols: nat,
    imports: nat,
) -> ParseFileRecordView {
    ParseFileRecordView {
        path: file.path,
        language: file.language,
        content: file.content,
        status,
        reason,
        symbol_count: symbols as u64,
        import_count: imports as u64,
    }
}

fn parse_file_record(
    file: &FileRecord,
    status: ParseFileStatus,
    reason: Option<ParseFileReason>,
    symbol_count: u64,
    import_count: u64,
) -> (out: ParseFileRecord)
    ensures
        out.deep_view() == file_record(
            file.deep_view(),
            status,
            reason,
            symbol_count as nat,
            import_count as nat,
        ),
{
    ParseFileRecord {
        path: file.path.clone(),
        language: file.language,
        content: file.content,
        status,
        reason,
        symbol_count,
        import_count,
    }
}

/// The record of a file that is not parsed yet.
pub open spec fn scaffold_of(file: FileRecordView) -> ParseFileRecordView {
    if file.content != ContentKind::Text {
        file_record(
            file,
            ParseFileStatus::Skipped,
            Some(ParseFileReason::UnsupportedContent),
            0,
            0,
        )
    } else if language_of(file) is Some {
        file_record(
            file,
            ParseFileStatus::Pending,
            Some(ParseFileReason::ParserExtractionPending),
            0,
            0,
        )
    } else {
        file_record(
            file,
            ParseFileStatus::Skipped,
            Some(ParseFileReason::UnsupportedLanguage),
            0,
            0,
        )
    }
}

fn scaffold_file_record(file: &FileRecord) -> (out: ParseFileRecord)
    ensures
        out.deep_view() == scaffold_of(file.deep_view()),
{
    let (status, reason) = if file.content != ContentKind::Text {
        (ParseFileStatus::Skipped, ParseFileReason::UnsupportedContent)
    } else if supported_language(file).is_some() {
        (ParseFileStatus::Pending, ParseFileReason::ParserExtractionPending)
    } else {
        (ParseFileStatus::Skipped, ParseFileReason::UnsupportedLanguage)
    };
    parse_file_record(file, status, Some(reason), 0, 0)
}

/// The report on a scan before anything is parsed.
pub open spec fn scaffold_report(scan: ScanReportView) -> ParseReportView {
    ParseReportView {
        warnings: order::sorted_by(scan_warnings(scan), order::by_key::<ParseWarning>()),
        files: Seq::new(scan.files.len(), |i: int| scaffold_of(scan.files[i])),
        symbols: Seq::empty(),
        imports: Seq::empty(),
    }
}

/// The report on a scan before anything is parsed.
pub fn scaffold_report_from_scan(scan: &ScanReport) -> (out: ParseReport)
    ensures
        out.deep_view() == scaffold_report(scan.deep_view()),
{
    let ghost expected = scaffold_report(scan.deep_view());
    let mut files: Vec<ParseFileRecord> = Vec::new();
    let mut i: usize = 0;
    while i < scan.files.len()
        invariant
            i <= scan.files.len(),
            expected == scaffold_report(scan.deep_view()),
            files.deep_view() == expected.files.take(i as int),
        decreases scan.files.len() - i,
    {
        let ghost before = files.deep_view();
        assert(scan.files.deep_view()[i as int] == scan.files@[i as int].deep_view());
        let record = scaffold_file_record(&scan.files[i]);
        files.push(record);
        assert(files.deep_view() =~= before.push(record.deep_view()));
        i = i + 1;
        assert(files.deep_view() =~= expected.files.take(i as int));
    }
    assert(expected.files.take(i as int) =~= expected.files);
    let warnings = order::sort(parse_warnings_from_scan(scan));
    let out = ParseReport { warnings, files, symbols: Vec::new(), imports: Vec::new() };
    assert(out.symbols.deep_view() =~= Seq::<ParseSymbolRecordView>::empty());
    assert(out.imports.deep_view() =~= Seq::<ParseImportRecordView>::empty());
    out
}

/// The report on a scan before anything is parsed.
pub fn parse_scan_report(scan: &ScanReport) -> (out: ParseReport)
    ensures
        out.deep_view() == scaffold_report(scan.deep_view()),
{
    scaffold_report_from_scan(scan)
}

/// Whether the source of a file is read: it is a text in a language that is parsed.
pub open spec fn reads(file: FileRecordView) -> bool {
    language_of(file) is Some && file.content == ContentKind::Text
}

/// The language in which the source of a file is read and parsed, if it is.
pub fn language_to_read(file: &FileRecord) -> (out: Option<SupportedLanguage>)
    ensures
        out == (if reads(file.deep_view()) {
            language_of(file.deep_view())
        } else {
            None
        }),
{
    if file.content != ContentKind::Text {
        return None;
    }
    supported_language(file)
}

/// What a file adds that is skipped.
pub open spec fn skipped_output(
    file: FileRecordView,
    reason: ParseFileReason,
    warnings: Seq<ParseWarningView>,
    counted: bool,
) -> FileParseOutputView {
    FileParseOutputView {
        file: file_record(file, ParseFileStatus::Skipped, Some(reason), 0, 0),
        warnings,
        symbols: Seq::empty(),
        imports: Seq::empty(),
        counted_for_progress: counted,
    }
}

/// What a file adds whose source was read, by what its source gave.
pub open spec fn extracted_output(
    file: FileRecordView,
    extraction: FileExtractionView,
) -> FileParseOutputView {
    FileParseOutputView {
        file: file_record(
            file,
            if extraction.parsed {
                ParseFileStatus::Parsed
            } else {
                ParseFileStatus::Skipped
            },
            if extraction.parsed {
                None
            } else {
                Some(ParseFileReason::ParseFailed)
            },
            extraction.symbols.len(),
            extraction.imports.len(),
        ),
        warnings: extraction.warnings,
        symbols: extraction.symbols,
        imports: extraction.imports,
        counted_for_progress: true,
    }
}

/// What a file adds to a report; what was read counts only where the source is read.
pub open spec fn output_of(file: FileRecordView, read: SourceReadView) -> FileParseOutputView {
    if language_of(file) is None {
        skipped_output(
            file,
            if file.content != ContentKind::Text {
                ParseFileReason::UnsupportedContent
            } else {
                ParseFileReason::UnsupportedLanguage
            },
            Seq::empty(),
            false,
        )
    } else if file.content != ContentKind::Text {
        skipped_output(file, ParseFileReason::UnsupportedContent, Seq::empty(), false)
    } else {
        let language = language_of(file)->0;
        match read {
            SourceReadView::NotUtf8 => skipped_output(
                file,
                ParseFileReason::UnsupportedEncoding,
                seq![
                    ParseWarningView {
                        code: "parse_unsupported_encoding"@,
                        path: Some(file.path),
                        message: "file contents are no longer valid UTF-8; file skipped"@,
                    },
                ],
                true,
            ),
            SourceReadView::Failed { message } => skipped_output(
                file,
                ParseFileReason::ReadFailed,
                seq![
                    ParseWarningView {
                        code: "parse_read_failed"@,
                        path: Some(file.path),
                        message: "failed to read file contents for parsing: "@ + message,
                    },
                ],
                true,
            ),
            SourceReadView::Text(source) => extracted_output(
                file,
                extract::extraction_of(
                    file.path,
                    language,
                    syntax::syntax_of(language, source),
                    vstd::utf8::encode_utf8(source),
                ),
            ),
        }
    }
}

fn skipped_file(
    file: &FileRecord,
    reason: ParseFileReason,
    warnings: Vec<ParseWarning>,
    counted_for_progress: bool,
) -> (out: FileParseOutput)
    ensures
        out.deep_view() == skipped_output(
            file.deep_view(),
            reason,
            warnings.deep_view(),
            counted_for_progress,
        ),
{
    let out = FileParseOutput {
        file: parse_file_record(file, ParseFileStatus::Skipped, Some(reason), 0, 0),
        warnings,
        symbols: Vec::new(),
        imports: Vec::new(),
        counted_for_progress,
    };
    assert(out.symbols.deep_view() =~= Seq::<ParseSymbolRecordView>::empty());
    assert(out.imports.deep_view() =~= Seq::<ParseImportRecordView>::empty());
    out
}

/// What a file adds whose source was read, by what its source gave.
pub fn file_output_from_extraction(file: &FileRecord, extraction: FileExtraction) -> (out:
    FileParseOutput)
    ensures
        out.deep_view() == extracted_output(file.deep_view(), extraction.deep_view()),
{
    let symbol_count: u64 = extraction.symbols.len() as u64;
    let import_count: u64 = extraction.imports.len() as u64;
    let (status, reason) = if extraction.parsed {
        (ParseFileStatus::Parsed, None)
    } else {
        (ParseFileStatus::Skipped, Some(ParseFileReason::ParseFailed))
    };
    FileParseOutput {
        file: parse_file_record(file, status, reason, symbol_count, import_count),
        warnings: extraction.warnings,
        symbols: extraction.symbols,
        imports: extraction.imports,
        counted_for_progress: true,
    }
}

/// What a file adds to a report; what was read counts only where the source is read.
pub fn parse_file_from_scan(file: &FileRecord, read: &SourceRead) -> (out: FileParseOutput)
    ensures
        out.deep_view() == output_of(file.deep_view(), read.deep_view()),
{
    let no_warnings: Vec<ParseWarning> = Vec::new();
    assert(no_warnings.deep_view() =~= Seq::<ParseWarningView>::empty());
    let language = match supported_language(file) {
        Some(language) => language,
        None => {
            let reason = if file.content != ContentKind::Text {
                ParseFileReason::UnsupportedContent
            } else {
                ParseFileReason::UnsupportedLanguage
            };
            return skipped_file(file, reason, no_warnings, false);
        },
    };
    if file.content != ContentKind::Text {
        return skipped_file(file, ParseFileReason::UnsupportedContent, no_warnings, false);
    }
    match read {
        SourceRead::NotUtf8 => {
            let words = "file contents are no longer valid UTF-8; file skipped".to_string();
            let warnings = extract::only_warning(
                "parse_unsupported_encoding",
                file.path.as_str(),
                words,
            );
            skipped_file(file, ParseFileReason::UnsupportedEncoding, warnings, true)
        },
        SourceRead::Failed { message } => {
            let mut words = "failed to read file contents for parsing: ".to_string();
            words.append(message.as_str());
            let warnings = extract::only_warning("parse_read_failed", file.path.as_str(), words);
            skipped_file(file, ParseFileReason::ReadFailed, warnings, true)
        },
        SourceRead::Text(source) => {
            let extraction = extract::extract_source(file.path.as_str(), language, source.as_str());
            file_output_from_extraction(file, extraction)
        },
    }
}

/// The warnings of all outputs, in order.
pub open spec fn outputs_warnings(outputs: Seq<FileParseOutputView>) -> Seq<ParseWarningView>
    decreases outputs.len(),
{
    if outputs.len() == 0 {
        Seq::empty()
    } else {
        outputs_warnings(outputs.drop_last()) + outputs.last().warnings
    }
}

/// The symbols of all outputs, in order.
pub open spec fn outputs_symbols(outputs: Seq<FileParseOutputView>) -> Seq<ParseSymbolRecordView>
    decreases outputs.len(),
{
    if outputs.len() == 0 {
        Seq::empty()
    } else {
        outputs_symbols(outputs.drop_last()) + outputs.last().symbols
    }
}

/// The imports of all outputs, in order.
pub open spec fn outputs_imports(outputs: Seq<FileParseOutputView>) -> Seq<ParseImportRecordView>
    decreases outputs.len(),
{
    if outputs.len() == 0 {
        Seq::empty()
    } else {
        outputs_imports(outputs.drop_last()) + outputs.last().imports
    }
}

/// The report on a scan whose files gave `outputs`.
pub open spec fn parsed_report(
    scan: ScanReportView,
    outputs: Seq<FileParseOutputView>,
) -> ParseReportView {
    ParseReportView {
        warnings: order::sorted_by(
            scan_warnings(scan) + outputs_warnings(outputs),
            order::by_key::<ParseWarning>(),
        ),
        files: Seq::new(outputs.len(), |i: int| outputs[i].file),
        symbols: order::sorted_by(outputs_symbols(outputs), order::by_key::<ParseSymbolRecord>()),
        imports: order::sorted_by(outputs_imports(outputs), order::by_key::<ParseImportRecord>()),
    }
}

fn append_all<T: DeepView>(out: &mut Vec<T>, more: Vec<T>)
    ensures
        final(out).deep_view() == old(out).deep_view() + more.deep_view(),
{
    let ghost start = out.deep_view();
    let ghost all = more.deep_view();
    assert(start + all.take(0) =~= start);
    for x in it: more
        invariant
            it.seq() == more@,
            all == more.deep_view(),
            out.deep_view() == start + all.take(it.index() as int),
    {
        let ghost before = out.deep_view();
        let ghost n = it.index() as int;
        assert(all[n] == x.deep_view());
        out.push(x);
        assert(out.deep_view() =~= before.push(all[n]));
        assert(out.deep_view() =~= start + all.take(n + 1));
    }
    assert(all.take(all.len() as int) =~= all);
}

/// The report on a scan, by what each of its files gave.
pub fn report_from_scan(scan: &ScanReport, outputs: Vec<FileParseOutput>) -> (out: ParseReport)
    ensures
        out.deep_view() == parsed_report(scan.deep_view(), outputs.deep_view()),
{
    let ghost all = outputs.deep_view();
    let ghost expected = parsed_report(scan.deep_view(), all);
    let ghost scanned = scan_warnings(scan.deep_view());
    let mut warnings = parse_warnings_from_scan(scan);
    let mut files: Vec<ParseFileRecord> = Vec::new();
    let mut symbols: Vec<ParseSymbolRecord> = Vec::new();
    let mut imports: Vec<ParseImportRecord> = Vec::new();
    assert(scanned + outputs_warnings(all.take(0)) =~= scanned);
    assert(files.deep_view() =~= expected.files.take(0));
    for output in it: outputs
        invariant
            it.seq() == outputs@,
            all == outputs.deep_view(),
            expected == parsed_report(scan.deep_view(), all),
            warnings.deep_view() == scanned + outputs_warnings(all.take(it.index() as int)),
            symbols.deep_view() == outputs_symbols(all.take(it.index() as int)),
            imports.deep_view() == outputs_imports(all.take(it.index() as int)),
            files.deep_view() == expected.files.take(it.index() as int),
    {
        let ghost n = it.index() as int;
        let ghost before = files.deep_view();
        assert(all.take(n + 1).drop_last() =~= all.take(n));
        assert(all.take(n + 1).last() == output.deep_view());
        append_all(&mut warnings, output.warnings);
        append_all(&mut symbols, output.symbols);
        append_all(&mut imports, output.imports);
        files.push(output.file);
        assert(warnings.deep_view() =~= scanned + outputs_warnings(all.take(n + 1)));
        assert(files.deep_view() =~= before.push(all[n].file));
        assert(files.deep_view() =~= expected.files.take(n + 1));
    }
    assert(all.take(all.len() as int) =~= all);
    assert(expected.files.take(all.len() as int) =~= expected.files);
    ParseReport {
        warnings: order::sort(warnings),
        files,
        symbols: order::sort(symbols),
        imports: order::sort(imports),
    }
}

/// How many files are read.
pub open spec fn read_count(files: Seq<FileRecordView>) -> nat
    decreases files.len(),
{
    if files.len() == 0 {
        0
    } else {
        read_count(files.drop_last()) + if reads(files.last()) {
            1nat
        } else {
            0
        }
    }
}

/// What is told of the progress while outputs come in: one entry for each that counts.
pub open spec fn progress_of(total: nat, outputs: Seq<FileParseOutputView>) -> Seq<
    ParseProgressView,
>
    decreases outputs.len(),
{
    if outputs.len() == 0 {
        Seq::empty()
    } else {
        let before = progress_of(total, outputs.drop_last());
        if outputs.last().counted_for_progress {
            before.push(
                ParseProgressView {
                    completed_files: (before.len() + 1) as usize,
                    total_files: total as usize,
                    path: outputs.last().file.path,
                },
            )
        } else {
            before
        }
    }
}

/// What is told of the progress while the outputs of a scan come in.
pub fn parse_progress(scan: &ScanReport, outputs: &Vec<FileParseOutput>) -> (out: Vec<
    ParseProgress,
>)
    ensures
        out.deep_view() == progress_of(read_count(scan.deep_view().files), outputs.deep_view()),
{
    let ghost files = scan.files.deep_view();
    let ghost all = outputs.deep_view();
    let mut total: usize = 0;
    let mut i: usize = 0;
    while i < scan.files.len()
        invariant
            i <= scan.files.len(),
            files == scan.files.deep_view(),
            total == read_count(files.take(i as int)),
            total <= i,
        decreases scan.files.len() - i,
    {
        assert(files.take(i + 1).drop_last() =~= files.take(i as int));
        assert(files.take(i + 1).last() == scan.files@[i as int].deep_view());
        if language_to_read(&scan.files[i]).is_some() {
            total = total + 1;
        }
        i = i + 1;
    }
    assert(files.take(i as int) =~= files);
    let mut out: Vec<ParseProgress> = Vec::new();
    let mut j: usize = 0;
    assert(out.deep_view() =~= progress_of(total as nat, all.take(0)));
    while j < outputs.len()
        invariant
            j <= outputs.len(),
            all == outputs.deep_view(),
            out.deep_view() == progress_of(total as nat, all.take(j as int)),
            out.len() <= j,
        decreases outputs.len() - j,
    {
        assert(all.take(j + 1).drop_last() =~= all.take(j as int));
        assert(all.take(j + 1).last() == outputs@[j as int].deep_view());
        if outputs[j].counted_for_progress {
            let ghost before = out.deep_view();
            let step = ParseProgress {
                completed_files: out.len() + 1,
                total_files: total,
                path: outputs[j].file.path.clone(),
            };
            out.push(step);
            assert(out.deep_view() =~= before.push(step.deep_view()));
        }
        j = j + 1;
    }
    assert(all.take(j as int) =~= all);
    out
}

/// The summary of a parse: its totals, and its warnings where there are any.
pub open spec fn summary_text(summary: ParseSummary) -> Seq<char> {
    let totals = "Hotpath parse summary"@
        + "\ntotal files   "@ + numbers::decimal(summary.total_files as nat)
        + "\ncandidates    "@ + numbers::decimal(summary.candidate_files as nat)
        + "\nparsed        "@ + numbers::decimal(summary.parsed_files as nat)
        + "\npending       "@ + numbers::decimal(summary.pending_files as nat)
        + "\nskipped       "@ + numbers::decimal(summary.skipped_files as nat)
        + "\nsymbols       "@ + numbers::decimal(summary.symbol_count as nat)
        + "\nimports       "@ + numbers::decimal(summary.import_count as nat);
    if summary.warning_count > 0 {
        totals + "\nwarnings      "@ + numbers::decimal(summary.warning_count as nat)
    } else {
        totals
    }
}

/// Renders the summary of a parse.
pub fn parse_summary(report: &ParseReport) -> (output: String)
    ensures
        output@ == summary_text(summary_of(report.deep_view())),
{
    let summary = report.summary();
    let mut text = "Hotpath parse summary".to_owned();
    let out = &mut text;
    out.append("\ntotal files   ");
    numbers::push_decimal(out, summary.total_files);
    out.append("\ncandidates    ");
    numbers::push_decimal(out, summary.candidate_files);
    out.append("\nparsed        ");
    numbers::push_decimal(out, summary.parsed_files);
    out.append("\npending       ");
    numbers::push_decimal(out, summary.pending_files);
    out.append("\nskipped       ");
    numbers::push_decimal(out, summary.skipped_files);
    out.append("\nsymbols       ");
    numbers::push_decimal(out, summary.symbol_count);
    out.append("\nimports       ");
    numbers::push_decimal(out, summary.import_count);
    if summary.warning_count > 0 {
        out.append("\nwarnings      ");
        numbers::push_decimal(out, summary.warning_count);
    }
    text
}

/// What the files of a scan add to a report, by what was read of each.
pub open spec fn outputs_from(files: Seq<FileRecordView>, reads: Seq<SourceReadView>) -> Seq<
    FileParseOutputView,
> {
    Seq::new(files.len(), |i: int| output_of(files[i], reads[i]))
}

/// The progress counts one by one all files that are read.
pub proof fn progress_ends_with_all_read(
    total: nat,
    files: Seq<FileRecordView>,
    reads: Seq<SourceReadView>,
)
    requires
        files.len() == reads.len(),
    ensures
        progress_of(total, outputs_from(files, reads)).len() == read_count(files),
        forall|k: int|
            0 <= k < read_count(files) ==> (#[trigger] progress_of(
                total,
                outputs_from(files, reads),
            )[k]).completed_files == (k + 1) as usize,
    decreases files.len(),
{
    if files.len() > 0 {
        let front = outputs_from(files.drop_last(), reads.drop_last());
        progress_ends_with_all_read(total, files.drop_last(), reads.drop_last());
        assert(outputs_from(files, reads).drop_last() =~= front);
    }
}

/// The symbols that the records of files count.
pub open spec fn counted_symbols(files: Seq<ParseFileRecordView>) -> nat
    decreases files.len(),
{
    if files.len() == 0 {
        0
    } else {
        counted_symbols(files.drop_last()) + files.last().symbol_count as nat
    }
}

/// Whether the record of a file counts its symbols, as far as they can be counted.
pub open spec fn counts_its_symbols(output: FileParseOutputView) -> bool {
    output.symbols.len() <= u64::MAX ==> output.file.symbol_count == output.symbols.len()
}

/// What a file adds to a report counts its symbols.
pub proof fn outputs_count_their_symbols(file: FileRecordView, read: SourceReadView)
    ensures
        counts_its_symbols(output_of(file, read)),
{
}

/// The records of the files count together the symbols that a report lists.
pub proof fn symbol_counts_add_up(scan: ScanReportView, outputs: Seq<FileParseOutputView>)
    requires
        outputs_symbols(outputs).len() <= u64::MAX,
        forall|i: int| 0 <= i < outputs.len() ==> counts_its_symbols(#[trigger] outputs[i]),
    ensures
        counted_symbols(parsed_report(scan, outputs).files) == parsed_report(
            scan,
            outputs,
        ).symbols.len(),
    decreases outputs.len(),
{
    order::sorted_by_permutes(outputs_symbols(outputs), order::by_key::<ParseSymbolRecord>());
    vstd::seq_lib::to_multiset_len(outputs_symbols(outputs));
    vstd::seq_lib::to_multiset_len(parsed_report(scan, outputs).symbols);
    if outputs.len() > 0 {
        let front = outputs.drop_last();
        assert(counts_its_symbols(outputs[outputs.len() - 1]));
        assert forall|i: int| 0 <= i < front.len() implies counts_its_symbols(
            #[trigger] front[i],
        ) by {
            assert(front[i] == outputs[i]);
        }
        symbol_counts_add_up(scan, front);
        order::sorted_by_permutes(outputs_symbols(front), order::by_key::<ParseSymbolRecord>());
        vstd::seq_lib::to_multiset_len(outputs_symbols(front));
        vstd::seq_lib::to_multiset_len(parsed_report(scan, front).symbols);
        assert(parsed_report(scan, outputs).files.drop_last() =~= parsed_report(
            scan,
            front,
        ).files);
    }
}

} // verus!
