//! The totals of a scan, and the summary text.

use vstd::prelude::*;

use crate::numbers;
use crate::scan;
use crate::scan::{
    ContentKind, ContentSummary, FileRecordView, FileWarningView, FlagSummary, ScanReport,
    ScanReportView, ScanSummary, ScanWarningView, WarningSummary,
};
use crate::table;
use crate::table::TextMap;
use crate::text;

verus! {

/// The bytes of the files whose size is known.
pub open spec fn total_bytes(files: Seq<FileRecordView>) -> nat
    decreases files.len(),
{
    if files.len() == 0 {
        0
    } else {
        total_bytes(files.drop_last()) + match files.last().byte_size {
            Some(n) => n as nat,
            None => 0,
        }
    }
}

/// How many files have content of a kind.
pub open spec fn content_count(files: Seq<FileRecordView>, kind: ContentKind) -> nat
    decreases files.len(),
{
    if files.len() == 0 {
        0
    } else {
        content_count(files.drop_last(), kind) + if files.last().content == kind {
            1nat
        } else {
            0nat
        }
    }
}

/// How many files are generated.
pub open spec fn generated_count(files: Seq<FileRecordView>) -> nat
    decreases files.len(),
{
    if files.len() == 0 {
        0
    } else {
        generated_count(files.drop_last()) + if files.last().is_generated {
            1nat
        } else {
            0nat
        }
    }
}

/// How many files are vendored.
pub open spec fn vendor_count(files: Seq<FileRecordView>) -> nat
    decreases files.len(),
{
    if files.len() == 0 {
        0
    } else {
        vendor_count(files.drop_last()) + if files.last().is_vendor {
            1nat
        } else {
            0nat
        }
    }
}

/// How many files have a language.
pub open spec fn language_count(files: Seq<FileRecordView>, language: Seq<char>) -> nat
    decreases files.len(),
{
    if files.len() == 0 {
        0
    } else {
        language_count(files.drop_last(), language) + if files.last().language == Some(language) {
            1nat
        } else {
            0nat
        }
    }
}

/// The languages of the files.
pub open spec fn languages(files: Seq<FileRecordView>) -> Set<Seq<char>>
    decreases files.len(),
{
    if files.len() == 0 {
        Set::empty()
    } else {
        match files.last().language {
            Some(language) => languages(files.drop_last()).insert(language),
            None => languages(files.drop_last()),
        }
    }
}

/// The codes of the scan's own warnings.
pub open spec fn scan_codes(warnings: Seq<ScanWarningView>) -> Seq<Seq<char>> {
    warnings.map_values(|warning: ScanWarningView| warning.code)
}

/// The codes of one file's warnings.
pub open spec fn warning_codes(warnings: Seq<FileWarningView>) -> Seq<Seq<char>> {
    warnings.map_values(|warning: FileWarningView| warning.code)
}

/// The codes of all files' warnings.
pub open spec fn file_codes(files: Seq<FileRecordView>) -> Seq<Seq<char>>
    decreases files.len(),
{
    if files.len() == 0 {
        Seq::empty()
    } else {
        file_codes(files.drop_last()) + warning_codes(files.last().warnings)
    }
}

/// The codes of all warnings.
pub open spec fn all_codes(report: ScanReportView) -> Seq<Seq<char>> {
    scan_codes(report.warnings) + file_codes(report.files)
}

/// How many of the codes mean that something could not be read.
pub open spec fn unreadable_count(codes: Seq<Seq<char>>) -> nat
    decreases codes.len(),
{
    if codes.len() == 0 {
        0
    } else {
        unreadable_count(codes.drop_last()) + if scan::is_unreadable(codes.last()) {
            1nat
        } else {
            0nat
        }
    }
}

/// How many of the codes mean that something was skipped.
pub open spec fn skipped_count(codes: Seq<Seq<char>>) -> nat
    decreases codes.len(),
{
    if codes.len() == 0 {
        0
    } else {
        skipped_count(codes.drop_last()) + if scan::is_skipped(codes.last()) {
            1nat
        } else {
            0nat
        }
    }
}

/// Whether the totals can be counted.
pub open spec fn totals_fit(report: ScanReportView) -> bool {
    total_bytes(report.files) <= u64::MAX && all_codes(report).len() <= u64::MAX
}

/// Whether `summary` holds the totals of `report`.
pub open spec fn is_summary(summary: ScanSummary, report: ScanReportView) -> bool {
    let codes = all_codes(report);
    &&& summary.total_files == report.files.len()
    &&& summary.total_bytes == total_bytes(report.files)
    &&& summary.content.text_files == content_count(report.files, ContentKind::Text)
    &&& summary.content.binary_files == content_count(report.files, ContentKind::Binary)
    &&& summary.content.unknown_files == content_count(report.files, ContentKind::Unknown)
    &&& summary.flags.generated_files == generated_count(report.files)
    &&& summary.flags.vendor_files == vendor_count(report.files)
    &&& summary.warnings.total_warnings == codes.len()
    &&& summary.warnings.scan_warnings == report.warnings.len()
    &&& summary.warnings.unreadable_warnings == unreadable_count(codes)
    &&& summary.warnings.skipped_warnings == skipped_count(codes)
    &&& summary.languages.wf()
    &&& summary.languages@.dom() == languages(report.files)
    &&& forall|language: Seq<char>| #[trigger]
        summary.languages@.dom().contains(language) ==> summary.languages@[language]
            == language_count(report.files, language)
}

proof fn counts_are_bounded(files: Seq<FileRecordView>, language: Seq<char>)
    ensures
        content_count(files, ContentKind::Text) <= files.len(),
        content_count(files, ContentKind::Binary) <= files.len(),
        content_count(files, ContentKind::Unknown) <= files.len(),
        generated_count(files) <= files.len(),
        vendor_count(files) <= files.len(),
        language_count(files, language) <= files.len(),
        languages(files).contains(language) <==> language_count(files, language) > 0,
    decreases files.len(),
{
    if files.len() > 0 {
        counts_are_bounded(files.drop_last(), language);
    }
}

/// Every file has exactly one kind of content.
pub proof fn content_kinds_add_up(files: Seq<FileRecordView>)
    ensures
        content_count(files, ContentKind::Text) + content_count(files, ContentKind::Binary)
            + content_count(files, ContentKind::Unknown) == files.len(),
    decreases files.len(),
{
    if files.len() > 0 {
        content_kinds_add_up(files.drop_last());
    }
}

proof fn codes_are_bounded(codes: Seq<Seq<char>>)
    ensures
        unreadable_count(codes) <= codes.len(),
        skipped_count(codes) <= codes.len(),
    decreases codes.len(),
{
    if codes.len() > 0 {
        codes_are_bounded(codes.drop_last());
    }
}

proof fn prefix_totals(files: Seq<FileRecordView>, n: int)
    requires
        0 <= n <= files.len(),
    ensures
        total_bytes(files.take(n)) <= total_bytes(files),
        file_codes(files.take(n)).len() <= file_codes(files).len(),
    decreases files.len() - n,
{
    if n < files.len() {
        assert(files.take(n + 1).drop_last() =~= files.take(n));
        prefix_totals(files, n + 1);
    } else {
        assert(files.take(n) =~= files);
    }
}

fn count_code(summary: &mut WarningSummary, code: &str, Ghost(codes): Ghost<Seq<Seq<char>>>)
    requires
        old(summary).unreadable_warnings == unreadable_count(codes),
        old(summary).skipped_warnings == skipped_count(codes),
        codes.len() < u64::MAX,
    ensures
        final(summary).total_warnings == old(summary).total_warnings,
        final(summary).scan_warnings == old(summary).scan_warnings,
        final(summary).unreadable_warnings == unreadable_count(codes.push(code@)),
        final(summary).skipped_warnings == skipped_count(codes.push(code@)),
{
    proof {
        codes_are_bounded(codes);
        assert(codes.push(code@).drop_last() =~= codes);
    }
    if scan::is_unreadable_warning(code) {
        summary.unreadable_warnings = summary.unreadable_warnings + 1;
    }
    if scan::is_skipped_warning(code) {
        summary.skipped_warnings = summary.skipped_warnings + 1;
    }
}

fn count_language(languages_seen: &mut TextMap<u64>, language: &str, Ghost(files): Ghost<Seq<FileRecordView>>)
    requires
        old(languages_seen).wf(),
        files.len() < u64::MAX,
        old(languages_seen)@.dom() == languages(files),
        forall|l: Seq<char>| #[trigger]
            old(languages_seen)@.dom().contains(l) ==> old(languages_seen)@[l] == language_count(files, l),
    ensures
        final(languages_seen).wf(),
        final(languages_seen)@ == old(languages_seen)@.insert(
            language@,
            (language_count(files, language@) + 1) as u64,
        ),
{
    proof {
        counts_are_bounded(files, language@);
    }
    let n: u64 = match languages_seen.get(language) {
        Some(n) => *n,
        None => 0,
    };
    languages_seen.insert(language, n + 1);
}

impl ScanReport {
    /// The totals of the scan.
    pub fn summary(&self) -> (summary: ScanSummary)
        requires
            totals_fit(self.deep_view()),
        ensures
            is_summary(summary, self.deep_view()),
    {
        let ghost report = self.deep_view();
        let ghost files = report.files;
        let ghost own = scan_codes(report.warnings);
        let mut content = ContentSummary { text_files: 0, binary_files: 0, unknown_files: 0 };
        let mut flags = FlagSummary { generated_files: 0, vendor_files: 0 };
        let mut warnings = WarningSummary {
            total_warnings: self.warnings.len() as u64,
            scan_warnings: self.warnings.len() as u64,
            unreadable_warnings: 0,
            skipped_warnings: 0,
        };
        let mut seen: TextMap<u64> = TextMap::new();
        let mut bytes: u64 = 0;
        let mut i: usize = 0;
        while i < self.warnings.len()
            invariant
                i <= self.warnings.len(),
                report == self.deep_view(),
                own == scan_codes(report.warnings),
                own.len() <= u64::MAX,
                warnings.total_warnings == self.warnings.len(),
                warnings.scan_warnings == self.warnings.len(),
                warnings.unreadable_warnings == unreadable_count(own.take(i as int)),
                warnings.skipped_warnings == skipped_count(own.take(i as int)),
            decreases self.warnings.len() - i,
        {
            let ghost codes = own.take(i as int);
            assert(own[i as int] == self.warnings@[i as int].code@);
            assert(own.take(i + 1) =~= codes.push(own[i as int]));
            count_code(&mut warnings, self.warnings[i].code, Ghost(codes));
            i = i + 1;
        }
        assert(own.take(i as int) =~= own);
        assert(own + file_codes(files.take(0)) =~= own);
        assert(seen@.dom() =~= languages(files.take(0)));
        let mut k: usize = 0;
        while k < self.files.len()
            invariant
                k <= self.files.len(),
                report == self.deep_view(),
                files == report.files,
                own == scan_codes(report.warnings),
                totals_fit(report),
                bytes == total_bytes(files.take(k as int)),
                content.text_files == content_count(files.take(k as int), ContentKind::Text),
                content.binary_files == content_count(files.take(k as int), ContentKind::Binary),
                content.unknown_files == content_count(files.take(k as int), ContentKind::Unknown),
                flags.generated_files == generated_count(files.take(k as int)),
                flags.vendor_files == vendor_count(files.take(k as int)),
                warnings.scan_warnings == self.warnings.len(),
                warnings.total_warnings == (own + file_codes(files.take(k as int))).len(),
                warnings.unreadable_warnings == unreadable_count(
                    own + file_codes(files.take(k as int)),
                ),
                warnings.skipped_warnings == skipped_count(own + file_codes(files.take(k as int))),
                seen.wf(),
                seen@.dom() == languages(files.take(k as int)),
                forall|l: Seq<char>| #[trigger]
                    seen@.dom().contains(l) ==> seen@[l] == language_count(files.take(k as int), l),
            decreases self.files.len() - k,
        {
            let file = &self.files[k];
            let ghost done = files.take(k as int);
            let ghost now = files.take(k + 1);
            let ghost codes = own + file_codes(done);
            let ghost added = warning_codes(file.deep_view().warnings);
            let ghost languages_before = seen@;
            proof {
                assert(now.drop_last() =~= done);
                assert(now.last() == file.deep_view());
                counts_are_bounded(done, Seq::empty());
                prefix_totals(files, k + 1);
                assert(own + file_codes(now) =~= codes + added);
                assert((codes + added).len() <= u64::MAX);
            }
            match file.byte_size {
                Some(n) => {
                    bytes = bytes + n;
                },
                None => {},
            }
            match file.content {
                ContentKind::Text => {
                    content.text_files = content.text_files + 1;
                },
                ContentKind::Binary => {
                    content.binary_files = content.binary_files + 1;
                },
                ContentKind::Unknown => {
                    content.unknown_files = content.unknown_files + 1;
                },
            }
            if file.is_generated {
                flags.generated_files = flags.generated_files + 1;
            }
            if file.is_vendor {
                flags.vendor_files = flags.vendor_files + 1;
            }
            match file.language {
                Some(language) => {
                    count_language(&mut seen, language, Ghost(done));
                },
                None => {},
            }
            proof {
                assert(seen@.dom() =~= languages(now));
                assert forall|l: Seq<char>| #[trigger] seen@.dom().contains(l) implies seen@[l]
                    == language_count(now, l) by {
                    counts_are_bounded(done, l);
                    counts_are_bounded(now, l);
                }
            }
            let mut j: usize = 0;
            assert(codes + added.take(0) =~= codes);
            while j < file.warnings.len()
                invariant
                    j <= file.warnings.len(),
                    added == warning_codes(file.deep_view().warnings),
                    (codes + added).len() <= u64::MAX,
                    warnings.scan_warnings == self.warnings.len(),
                    warnings.total_warnings == (codes + added.take(j as int)).len(),
                    warnings.unreadable_warnings == unreadable_count(codes + added.take(j as int)),
                    warnings.skipped_warnings == skipped_count(codes + added.take(j as int)),
                decreases file.warnings.len() - j,
            {
                let ghost so_far = codes + added.take(j as int);
                assert(added[j as int] == file.warnings@[j as int].code@);
                assert(codes + added.take(j + 1) =~= so_far.push(added[j as int]));
                warnings.total_warnings = warnings.total_warnings + 1;
                count_code(&mut warnings, file.warnings[j].code, Ghost(so_far));
                j = j + 1;
            }
            assert(added.take(j as int) =~= added);
            k = k + 1;
        }
        assert(files.take(k as int) =~= files);
        ScanSummary {
            total_files: self.files.len() as u64,
            total_bytes: bytes,
            content,
            flags,
            warnings,
            languages: seen,
        }
    }
}

/// The largest number of bytes that a text takes.
pub open spec fn widest(texts: Seq<Seq<char>>) -> nat
    decreases texts.len(),
{
    if texts.len() == 0 {
        0
    } else {
        let n = vstd::utf8::encode_utf8(texts.last()).len();
        let front = widest(texts.drop_last());
        if n > front {
            n
        } else {
            front
        }
    }
}

/// The languages as lines, with their numbers of files.
pub open spec fn language_lines(
    out: Seq<char>,
    files: Seq<FileRecordView>,
    listed: Seq<Seq<char>>,
    width: nat,
) -> Seq<char>
    decreases listed.len(),
{
    if listed.len() == 0 {
        out
    } else {
        language_lines(out, files, listed.drop_last(), width) + "\n  "@ + text::padded(
            listed.last(),
            width,
        ) + "  "@ + numbers::decimal(language_count(files, listed.last()))
    }
}

/// The summary of a scan: its totals, its warnings where there are any, and its
/// languages in ascending order.
pub open spec fn summary_text(report: ScanReportView) -> Seq<char> {
    let files = report.files;
    let codes = all_codes(report);
    let head = "Hotpath scan summary"@
        + "\ntotal files   "@ + numbers::decimal(files.len())
        + "\ntotal bytes   "@ + numbers::decimal(total_bytes(files))
        + "\ncontent       text "@ + numbers::decimal(content_count(files, ContentKind::Text))
        + ", binary "@ + numbers::decimal(content_count(files, ContentKind::Binary))
        + ", unknown "@ + numbers::decimal(content_count(files, ContentKind::Unknown))
        + "\nflags         generated "@ + numbers::decimal(generated_count(files))
        + ", vendor "@ + numbers::decimal(vendor_count(files));
    let warned = if codes.len() == 0 {
        head
    } else if report.warnings.len() > 0 {
        head + "\nwarnings      "@ + numbers::decimal(codes.len())
            + " (scan "@ + numbers::decimal(report.warnings.len())
            + ", unreadable "@ + numbers::decimal(unreadable_count(codes))
            + ", skipped "@ + numbers::decimal(skipped_count(codes)) + ")"@
    } else {
        head + "\nwarnings      "@ + numbers::decimal(codes.len())
            + " (unreadable "@ + numbers::decimal(unreadable_count(codes))
            + ", skipped "@ + numbers::decimal(skipped_count(codes)) + ")"@
    };
    let listed = table::listing(languages(files));
    if listed.len() == 0 {
        warned + "\nlanguages"@ + "\n  none"@
    } else {
        language_lines(warned + "\nlanguages"@, files, listed, widest(listed))
    }
}

/// The largest number of bytes that a text takes.
pub(crate) fn widest_of(texts: &Vec<String>) -> (width: usize)
    ensures
        width == widest(texts.deep_view()),
{
    let ghost all = texts.deep_view();
    let mut width: usize = 0;
    let mut i: usize = 0;
    while i < texts.len()
        invariant
            i <= texts.len(),
            all == texts.deep_view(),
            width == widest(all.take(i as int)),
        decreases texts.len() - i,
    {
        assert(all.take(i + 1).drop_last() =~= all.take(i as int));
        assert(all.take(i + 1).last() == texts@[i as int]@);
        let bytes = texts[i].as_str().as_bytes();
        let n: usize = bytes.len();
        if n > width {
            width = n;
        }
        i = i + 1;
    }
    assert(all.take(i as int) =~= all);
    width
}

/// Renders the summary of a scan.
pub fn scan_summary(report: &ScanReport) -> (output: String)
    requires
        totals_fit(report.deep_view()),
    ensures
        output@ == summary_text(report.deep_view()),
{
    let s = report.summary();
    let ghost files = report.deep_view().files;
    let mut text = "Hotpath scan summary".to_owned();
    let out = &mut text;
    out.append("\ntotal files   ");
    numbers::push_decimal(out, s.total_files);
    out.append("\ntotal bytes   ");
    numbers::push_decimal(out, s.total_bytes);
    out.append("\ncontent       text ");
    numbers::push_decimal(out, s.content.text_files);
    out.append(", binary ");
    numbers::push_decimal(out, s.content.binary_files);
    out.append(", unknown ");
    numbers::push_decimal(out, s.content.unknown_files);
    out.append("\nflags         generated ");
    numbers::push_decimal(out, s.flags.generated_files);
    out.append(", vendor ");
    numbers::push_decimal(out, s.flags.vendor_files);
    if s.warnings.total_warnings > 0 {
        if s.warnings.scan_warnings > 0 {
            out.append("\nwarnings      ");
            numbers::push_decimal(out, s.warnings.total_warnings);
            out.append(" (scan ");
            numbers::push_decimal(out, s.warnings.scan_warnings);
            out.append(", unreadable ");
            numbers::push_decimal(out, s.warnings.unreadable_warnings);
            out.append(", skipped ");
            numbers::push_decimal(out, s.warnings.skipped_warnings);
            out.append(")");
        } else {
            out.append("\nwarnings      ");
            numbers::push_decimal(out, s.warnings.total_warnings);
            out.append(" (unreadable ");
            numbers::push_decimal(out, s.warnings.unreadable_warnings);
            out.append(", skipped ");
            numbers::push_decimal(out, s.warnings.skipped_warnings);
            out.append(")");
        }
    }
    out.append("\nlanguages");
    let ghost start = out@;
    let ghost listed = s.languages.keys.deep_view();
    proof {
        s.languages.keys_are_dom();
        table::listing_of_ascending(listed);
    }
    if s.languages.keys.len() == 0 {
        out.append("\n  none");
    } else {
        let width: usize = widest_of(&s.languages.keys);
        let mut i: usize = 0;
        while i < s.languages.keys.len()
            invariant
                i <= s.languages.keys.len(),
                s.languages.wf(),
                listed == s.languages.keys.deep_view(),
                forall|language: Seq<char>| #[trigger]
                    s.languages@.dom().contains(language) ==> s.languages@[language]
                        == language_count(files, language),
                out@ == language_lines(start, files, listed.take(i as int), width as nat),
            decreases s.languages.keys.len() - i,
        {
            proof {
                s.languages.at_index(i as int);
                assert(listed.take(i + 1).drop_last() =~= listed.take(i as int));
                assert(listed.take(i + 1).last() == s.languages.keys@[i as int]@);
            }
            out.append("\n  ");
            text::push_padded(out, s.languages.keys[i].as_str(), width);
            out.append("  ");
            numbers::push_decimal(out, s.languages.values[i]);
            i = i + 1;
        }
        assert(listed.take(i as int) =~= listed);
    }
    text
}

} // verus!
