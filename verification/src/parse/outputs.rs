//! What files add to a parse report.

use vstd::prelude::*;

use crate::order;
use crate::parse::report;
use crate::parse::report::{FileParseOutputView, SourceReadView};
use crate::parse::{
    ParseFileReason, ParseFileStatus, ParseImportRecord, ParseSymbolRecord, ParseSymbolRecordView,
};
use crate::scan::{ContentKind, FileRecordView, ScanReportView};

verus! {

/// Whether a file can be parsed: a text with an extension of one of the languages.
pub open spec fn has_known_extension(file: FileRecordView) -> bool {
    file.extension == Some("rs"@) || file.extension == Some("go"@) || file.extension == Some("ts"@)
        || file.extension == Some("tsx"@)
}

/// What is not text is skipped for its content, and adds nothing.
pub proof fn what_is_not_text_is_skipped(file: FileRecordView, read: SourceReadView)
    requires
        file.content != ContentKind::Text,
    ensures
        ({
            let out = report::output_of(file, read);
            &&& out.file.path == file.path
            &&& out.file.language == file.language
            &&& out.file.content == file.content
            &&& out.file.status == ParseFileStatus::Skipped
            &&& out.file.reason == Some(ParseFileReason::UnsupportedContent)
            &&& out.file.symbol_count == 0
            &&& out.file.import_count == 0
            &&& out.symbols.len() == 0
            &&& out.imports.len() == 0
            &&& out.warnings.len() == 0
            &&& !out.counted_for_progress
        }),
{
}

/// A source that could not be read is skipped, with a warning at its path that says so.
pub proof fn unread_sources_are_warned_of(file: FileRecordView, message: Seq<char>)
    requires
        file.content == ContentKind::Text,
        has_known_extension(file),
    ensures
        ({
            let out = report::output_of(file, SourceReadView::Failed { message });
            &&& out.file.path == file.path
            &&& out.file.status == ParseFileStatus::Skipped
            &&& out.file.reason == Some(ParseFileReason::ReadFailed)
            &&& out.symbols.len() == 0
            &&& out.imports.len() == 0
            &&& out.counted_for_progress
            &&& out.warnings.len() == 1
            &&& out.warnings[0].code == "parse_read_failed"@
            &&& out.warnings[0].path == Some(file.path)
        }),
        ({
            let out = report::output_of(file, SourceReadView::NotUtf8);
            &&& out.file.path == file.path
            &&& out.file.status == ParseFileStatus::Skipped
            &&& out.file.reason == Some(ParseFileReason::UnsupportedEncoding)
            &&& out.symbols.len() == 0
            &&& out.imports.len() == 0
            &&& out.counted_for_progress
            &&& out.warnings.len() == 1
            &&& out.warnings[0].code == "parse_unsupported_encoding"@
            &&& out.warnings[0].path == Some(file.path)
        }),
{
}

/// A source that was read is parsed, or skipped as one that failed to parse; it counts the symbols
/// and the imports that it adds.
pub proof fn read_sources_count_what_they_add(file: FileRecordView, source: Seq<char>)
    requires
        file.content == ContentKind::Text,
        has_known_extension(file),
    ensures
        ({
            let out = report::output_of(file, SourceReadView::Text(source));
            &&& out.file.path == file.path
            &&& out.file.language == file.language
            &&& out.counted_for_progress
            &&& out.symbols.len() <= u64::MAX ==> out.file.symbol_count == out.symbols.len()
            &&& out.imports.len() <= u64::MAX ==> out.file.import_count == out.imports.len()
            &&& out.file.status == ParseFileStatus::Parsed <==> out.file.reason is None
            &&& out.file.status != ParseFileStatus::Parsed ==> out.file.status
                == ParseFileStatus::Skipped && out.file.reason == Some(ParseFileReason::ParseFailed)
        }),
{
}

/// A report has a row for each file, in their order.
pub proof fn reports_have_a_row_for_each_file(
    scan: ScanReportView,
    outputs: Seq<FileParseOutputView>,
    i: int,
)
    requires
        0 <= i < outputs.len(),
    ensures
        report::parsed_report(scan, outputs).files.len() == outputs.len(),
        report::parsed_report(scan, outputs).files[i] == outputs[i].file,
{
}

proof fn symbols_are_gathered(outputs: Seq<FileParseOutputView>, i: int, k: int)
    requires
        0 <= i < outputs.len(),
        0 <= k < outputs[i].symbols.len(),
    ensures
        report::outputs_symbols(outputs).contains(outputs[i].symbols[k]),
    decreases outputs.len(),
{
    let front = outputs.drop_last();
    let before = report::outputs_symbols(front);
    let all = report::outputs_symbols(outputs);
    if i < outputs.len() - 1 {
        assert(front[i] == outputs[i]);
        symbols_are_gathered(front, i, k);
        let m = choose|m: int| 0 <= m < before.len() && before[m] == outputs[i].symbols[k];
        assert(all[m] == outputs[i].symbols[k]);
    } else {
        assert(all[before.len() + k] == outputs[i].symbols[k]);
    }
}

proof fn imports_are_gathered(outputs: Seq<FileParseOutputView>, i: int, k: int)
    requires
        0 <= i < outputs.len(),
        0 <= k < outputs[i].imports.len(),
    ensures
        report::outputs_imports(outputs).contains(outputs[i].imports[k]),
    decreases outputs.len(),
{
    let front = outputs.drop_last();
    let before = report::outputs_imports(front);
    let all = report::outputs_imports(outputs);
    if i < outputs.len() - 1 {
        assert(front[i] == outputs[i]);
        imports_are_gathered(front, i, k);
        let m = choose|m: int| 0 <= m < before.len() && before[m] == outputs[i].imports[k];
        assert(all[m] == outputs[i].imports[k]);
    } else {
        assert(all[before.len() + k] == outputs[i].imports[k]);
    }
}

/// Every symbol of a file is in the report.
pub proof fn symbols_of_files_are_reported(
    scan: ScanReportView,
    outputs: Seq<FileParseOutputView>,
    i: int,
    k: int,
)
    requires
        0 <= i < outputs.len(),
        0 <= k < outputs[i].symbols.len(),
    ensures
        report::parsed_report(scan, outputs).symbols.contains(outputs[i].symbols[k]),
{
    let all = report::outputs_symbols(outputs);
    let lt = order::by_key::<ParseSymbolRecord>();
    symbols_are_gathered(outputs, i, k);
    order::sorted_by_permutes(all, lt);
    order::contains_by_multiset(all, order::sorted_by(all, lt), outputs[i].symbols[k]);
}

/// Every import of a file is in the report.
pub proof fn imports_of_files_are_reported(
    scan: ScanReportView,
    outputs: Seq<FileParseOutputView>,
    i: int,
    k: int,
)
    requires
        0 <= i < outputs.len(),
        0 <= k < outputs[i].imports.len(),
    ensures
        report::parsed_report(scan, outputs).imports.contains(outputs[i].imports[k]),
{
    let all = report::outputs_imports(outputs);
    let lt = order::by_key::<ParseImportRecord>();
    imports_are_gathered(outputs, i, k);
    order::sorted_by_permutes(all, lt);
    order::contains_by_multiset(all, order::sorted_by(all, lt), outputs[i].imports[k]);
}

proof fn gathered_symbols_have_a_file(
    outputs: Seq<FileParseOutputView>,
    symbol: ParseSymbolRecordView,
) -> (i: int)
    requires
        report::outputs_symbols(outputs).contains(symbol),
    ensures
        0 <= i < outputs.len(),
        outputs[i].symbols.contains(symbol),
    decreases outputs.len(),
{
    let all = report::outputs_symbols(outputs);
    let m = choose|m: int| 0 <= m < all.len() && all[m] == symbol;
    let front = outputs.drop_last();
    let before = report::outputs_symbols(front);
    if m < before.len() {
        assert(before[m] == symbol);
        let i = gathered_symbols_have_a_file(front, symbol);
        assert(front[i] == outputs[i]);
        i
    } else {
        assert(outputs.last().symbols[m - before.len()] == symbol);
        outputs.len() - 1
    }
}

/// Every symbol of a report is of one of the files.
pub proof fn reported_symbols_are_of_files(
    scan: ScanReportView,
    outputs: Seq<FileParseOutputView>,
    k: int,
) -> (i: int)
    requires
        0 <= k < report::parsed_report(scan, outputs).symbols.len(),
    ensures
        0 <= i < outputs.len(),
        outputs[i].symbols.contains(report::parsed_report(scan, outputs).symbols[k]),
{
    let all = report::outputs_symbols(outputs);
    let lt = order::by_key::<ParseSymbolRecord>();
    let sorted = order::sorted_by(all, lt);
    order::sorted_by_permutes(all, lt);
    assert(sorted.contains(sorted[k]));
    order::contains_by_multiset(sorted, all, sorted[k]);
    gathered_symbols_have_a_file(outputs, sorted[k])
}

} // verus!
