//! How much context the text files of a repository take.

pub mod arrival;
pub mod laws;

use vstd::prelude::*;

use crate::numbers;
use crate::order;
use crate::order::{KeyPart, Ordered};
use crate::scan::{ContentKind, FileRecord, FileRecordView};
use crate::table;
use crate::table::TextMap;
use crate::text;

verus! {

pub const CONTEXT_SCHEMA_VERSION: &'static str = "hotpath.context.v1";

/// What is counted, and against which budget.
#[derive(Debug, Clone, Copy, PartialEq, Eq, Structural)]
pub struct ContextOptions {
    pub exclude_generated: bool,
    pub exclude_vendor: bool,
    pub budget_tokens: Option<u64>,
}

/// The context estimate of a repository.
#[derive(Debug, Clone, PartialEq, Eq)]
pub struct ContextReport {
    pub schema_version: &'static str,
    pub options: ContextOptions,
    pub summary: ContextSummary,
    pub groups: Vec<ContextGroupRow>,
    pub skipped: Vec<ContextSkippedRow>,
    pub budget: Option<ContextBudgetStatus>,
}

/// The totals of a context estimate.
#[derive(Debug, Clone, Copy, PartialEq, Eq, Structural)]
pub struct ContextSummary {
    pub total_files: u64,
    pub included_files: u64,
    pub skipped_files: u64,
    pub estimated_tokens: u64,
    pub included_bytes: u64,
    pub filtered_generated_files: u64,
    pub filtered_vendor_files: u64,
}

/// The share of one top-level directory.
#[derive(Debug, Clone, PartialEq, Eq)]
pub struct ContextGroupRow {
    pub path: String,
    pub file_count: u64,
    pub byte_size: u64,
    pub estimated_tokens: u64,
}

/// A file that is not counted.
#[derive(Debug, Clone, PartialEq, Eq)]
pub struct ContextSkippedRow {
    pub path: String,
    pub reason: ContextSkippedReason,
}

/// Why a file is not counted.
#[derive(Debug, Clone, Copy, PartialEq, Eq, Structural)]
pub enum ContextSkippedReason {
    Binary,
    UnknownContent,
    MissingByteSize,
    Unreadable,
    ExcludedGenerated,
    ExcludedVendor,
}

/// How the estimate compares with the budget.
#[derive(Debug, Clone, Copy, PartialEq, Eq, Structural)]
pub struct ContextBudgetStatus {
    pub budget_tokens: u64,
    pub estimated_tokens: u64,
    pub remaining_tokens: Option<u64>,
    pub over_budget_tokens: Option<u64>,
}

/// Why a text is no budget.
#[derive(Debug, Clone, Copy, PartialEq, Eq, Structural)]
pub enum BudgetParseError {
    Empty,
    Zero,
    Negative,
    Decimal,
    UnknownSuffix,
    InvalidDigits,
    Overflow,
}

impl DeepView for ContextOptions {
    type V = ContextOptions;

    open spec fn deep_view(&self) -> ContextOptions {
        *self
    }
}

impl DeepView for ContextSummary {
    type V = ContextSummary;

    open spec fn deep_view(&self) -> ContextSummary {
        *self
    }
}

impl DeepView for ContextSkippedReason {
    type V = ContextSkippedReason;

    open spec fn deep_view(&self) -> ContextSkippedReason {
        *self
    }
}

impl DeepView for ContextBudgetStatus {
    type V = ContextBudgetStatus;

    open spec fn deep_view(&self) -> ContextBudgetStatus {
        *self
    }
}

/// What a [`ContextReport`] stands for.
#[verifier::ext_equal]
pub struct ContextReportView {
    pub schema_version: Seq<char>,
    pub options: ContextOptions,
    pub summary: ContextSummary,
    pub groups: Seq<ContextGroupRowView>,
    pub skipped: Seq<ContextSkippedRowView>,
    pub budget: Option<ContextBudgetStatus>,
}

impl DeepView for ContextReport {
    type V = ContextReportView;

    open spec fn deep_view(&self) -> ContextReportView {
        ContextReportView {
            schema_version: self.schema_version@,
            options: self.options,
            summary: self.summary,
            groups: self.groups.deep_view(),
            skipped: self.skipped.deep_view(),
            budget: self.budget.deep_view(),
        }
    }
}

/// What a [`ContextGroupRow`] stands for.
#[verifier::ext_equal]
pub struct ContextGroupRowView {
    pub path: Seq<char>,
    pub file_count: u64,
    pub byte_size: u64,
    pub estimated_tokens: u64,
}

impl DeepView for ContextGroupRow {
    type V = ContextGroupRowView;

    open spec fn deep_view(&self) -> ContextGroupRowView {
        ContextGroupRowView {
            path: self.path@,
            file_count: self.file_count,
            byte_size: self.byte_size,
            estimated_tokens: self.estimated_tokens,
        }
    }
}

/// What a [`ContextSkippedRow`] stands for.
#[verifier::ext_equal]
pub struct ContextSkippedRowView {
    pub path: Seq<char>,
    pub reason: ContextSkippedReason,
}

impl DeepView for ContextSkippedRow {
    type V = ContextSkippedRowView;

    open spec fn deep_view(&self) -> ContextSkippedRowView {
        ContextSkippedRowView {
            path: self.path@,
            reason: self.reason,
        }
    }
}

impl Default for ContextOptions {
    fn default() -> (out: ContextOptions)
        ensures
            out == (ContextOptions {
                exclude_generated: false,
                exclude_vendor: false,
                budget_tokens: None,
            }),
    {
        ContextOptions { exclude_generated: false, exclude_vendor: false, budget_tokens: None }
    }
}

impl BudgetParseError {
    /// The error in words.
    pub open spec fn words(self) -> Seq<char> {
        match self {
            BudgetParseError::Empty => "budget must not be empty"@,
            BudgetParseError::Zero => "budget must be a positive integer"@,
            BudgetParseError::Negative => "budget must not be negative"@,
            BudgetParseError::Decimal => "budget must be a whole number"@,
            BudgetParseError::UnknownSuffix => "budget suffix must be omitted or one of k, m"@,
            BudgetParseError::InvalidDigits => "budget must contain only digits before any suffix"@,
            BudgetParseError::Overflow => "budget is too large"@,
        }
    }

    /// The error in words.
    pub fn message(self) -> (out: &'static str)
        ensures
            out@ == self.words(),
    {
        match self {
            BudgetParseError::Empty => "budget must not be empty",
            BudgetParseError::Zero => "budget must be a positive integer",
            BudgetParseError::Negative => "budget must not be negative",
            BudgetParseError::Decimal => "budget must be a whole number",
            BudgetParseError::UnknownSuffix => "budget suffix must be omitted or one of k, m",
            BudgetParseError::InvalidDigits => "budget must contain only digits before any suffix",
            BudgetParseError::Overflow => "budget is too large",
        }
    }
}

/// Whether a file could not be read.
pub open spec fn could_not_read(file: FileRecordView) -> bool {
    exists|i: int|
        0 <= i < file.warnings.len() && ((#[trigger] file.warnings[i]).code == "read_failed"@
            || file.warnings[i].code == "metadata_failed"@)
}

/// What becomes of a file: its size counts, or it is left out for a reason.
pub open spec fn fate(file: FileRecordView, options: ContextOptions) -> Result<
    u64,
    ContextSkippedReason,
> {
    if options.exclude_generated && file.is_generated {
        Err(ContextSkippedReason::ExcludedGenerated)
    } else if options.exclude_vendor && file.is_vendor {
        Err(ContextSkippedReason::ExcludedVendor)
    } else if could_not_read(file) {
        Err(ContextSkippedReason::Unreadable)
    } else {
        match file.content {
            ContentKind::Text => match file.byte_size {
                Some(n) => Ok(n),
                None => Err(ContextSkippedReason::MissingByteSize),
            },
            ContentKind::Binary => Err(ContextSkippedReason::Binary),
            ContentKind::Unknown => Err(ContextSkippedReason::UnknownContent),
        }
    }
}

/// The tokens of a text of `bytes` bytes: a quarter of them, rounded up.
pub open spec fn tokens(bytes: nat) -> nat {
    (bytes + 3) / 4
}

/// The group of a file: its top-level directory, or `.` where it has none.
pub open spec fn group_of(path: Seq<char>) -> Seq<char> {
    let first = text::split_on(path, '/')[0];
    if first.len() == 0 || first == path {
        "."@
    } else {
        first
    }
}

/// The bytes that a file adds to a group.
pub open spec fn bytes_for(file: FileRecordView, options: ContextOptions, group: Seq<char>) -> nat {
    match fate(file, options) {
        Ok(n) => if group_of(file.path) == group {
            n as nat
        } else {
            0
        },
        Err(_) => 0,
    }
}

/// The tokens that a file adds to a group.
pub open spec fn tokens_for(
    file: FileRecordView,
    options: ContextOptions,
    group: Seq<char>,
) -> nat {
    match fate(file, options) {
        Ok(n) => if group_of(file.path) == group {
            tokens(n as nat)
        } else {
            0
        },
        Err(_) => 0,
    }
}

/// Whether a file is counted in a group.
pub open spec fn counts_for(
    file: FileRecordView,
    options: ContextOptions,
    group: Seq<char>,
) -> nat {
    if fate(file, options) is Ok && group_of(file.path) == group {
        1
    } else {
        0
    }
}

/// The bytes of a group.
pub open spec fn group_bytes(
    files: Seq<FileRecordView>,
    options: ContextOptions,
    group: Seq<char>,
) -> nat
    decreases files.len(),
{
    if files.len() == 0 {
        0
    } else {
        group_bytes(files.drop_last(), options, group) + bytes_for(files.last(), options, group)
    }
}

/// The tokens of a group.
pub open spec fn group_tokens(
    files: Seq<FileRecordView>,
    options: ContextOptions,
    group: Seq<char>,
) -> nat
    decreases files.len(),
{
    if files.len() == 0 {
        0
    } else {
        group_tokens(files.drop_last(), options, group) + tokens_for(files.last(), options, group)
    }
}

/// The files of a group.
pub open spec fn group_files(
    files: Seq<FileRecordView>,
    options: ContextOptions,
    group: Seq<char>,
) -> nat
    decreases files.len(),
{
    if files.len() == 0 {
        0
    } else {
        group_files(files.drop_last(), options, group) + counts_for(files.last(), options, group)
    }
}

/// The groups that have a counted file.
pub open spec fn group_paths(files: Seq<FileRecordView>, options: ContextOptions) -> Set<Seq<char>>
    decreases files.len(),
{
    if files.len() == 0 {
        Set::empty()
    } else if fate(files.last(), options) is Ok {
        group_paths(files.drop_last(), options).insert(group_of(files.last().path))
    } else {
        group_paths(files.drop_last(), options)
    }
}

/// The bytes of all counted files.
pub open spec fn all_bytes(files: Seq<FileRecordView>, options: ContextOptions) -> nat
    decreases files.len(),
{
    if files.len() == 0 {
        0
    } else {
        all_bytes(files.drop_last(), options) + match fate(files.last(), options) {
            Ok(n) => n as nat,
            Err(_) => 0,
        }
    }
}

/// The tokens of all counted files.
pub open spec fn all_tokens(files: Seq<FileRecordView>, options: ContextOptions) -> nat
    decreases files.len(),
{
    if files.len() == 0 {
        0
    } else {
        all_tokens(files.drop_last(), options) + match fate(files.last(), options) {
            Ok(n) => tokens(n as nat),
            Err(_) => 0,
        }
    }
}

/// The number of counted files.
pub open spec fn counted_files(files: Seq<FileRecordView>, options: ContextOptions) -> nat
    decreases files.len(),
{
    if files.len() == 0 {
        0
    } else {
        counted_files(files.drop_last(), options) + if fate(files.last(), options) is Ok {
            1nat
        } else {
            0nat
        }
    }
}

/// The files that are left out, with the reasons.
pub open spec fn left_out(files: Seq<FileRecordView>, options: ContextOptions) -> Seq<
    ContextSkippedRowView,
>
    decreases files.len(),
{
    if files.len() == 0 {
        Seq::empty()
    } else {
        let front = left_out(files.drop_last(), options);
        match fate(files.last(), options) {
            Ok(_) => front,
            Err(reason) => front.push(
                ContextSkippedRowView { path: files.last().path, reason },
            ),
        }
    }
}

/// The number of files that are left out for a reason.
pub open spec fn left_out_for(
    files: Seq<FileRecordView>,
    options: ContextOptions,
    reason: ContextSkippedReason,
) -> nat
    decreases files.len(),
{
    if files.len() == 0 {
        0
    } else {
        left_out_for(files.drop_last(), options, reason) + if fate(files.last(), options) == Err::<
            u64,
            ContextSkippedReason,
        >(reason) {
            1nat
        } else {
            0nat
        }
    }
}

/// A sum as far as 64 bits can hold it.
pub open spec fn capped(n: nat) -> u64 {
    if n > u64::MAX {
        u64::MAX
    } else {
        n as u64
    }
}

/// The row of a group.
pub open spec fn group_row(
    files: Seq<FileRecordView>,
    options: ContextOptions,
    group: Seq<char>,
) -> ContextGroupRowView {
    ContextGroupRowView {
        path: group,
        file_count: group_files(files, options, group) as u64,
        byte_size: capped(group_bytes(files, options, group)),
        estimated_tokens: capped(group_tokens(files, options, group)),
    }
}

/// The rows of the groups, by path.
pub open spec fn group_rows(files: Seq<FileRecordView>, options: ContextOptions) -> Seq<
    ContextGroupRowView,
> {
    table::listing(group_paths(files, options)).map_values(
        |group: Seq<char>| group_row(files, options, group),
    )
}

/// How an estimate compares with a budget.
pub open spec fn compared(budget_tokens: u64, estimated_tokens: u64) -> ContextBudgetStatus {
    ContextBudgetStatus {
        budget_tokens,
        estimated_tokens,
        remaining_tokens: if estimated_tokens <= budget_tokens {
            Some((budget_tokens - estimated_tokens) as u64)
        } else {
            None
        },
        over_budget_tokens: if budget_tokens <= estimated_tokens {
            Some((estimated_tokens - budget_tokens) as u64)
        } else {
            None
        },
    }
}

/// The estimate of a repository.
pub open spec fn estimate(files: Seq<FileRecordView>, options: ContextOptions) -> ContextReportView {
    ContextReportView {
        schema_version: CONTEXT_SCHEMA_VERSION@,
        options,
        summary: ContextSummary {
            total_files: files.len() as u64,
            included_files: counted_files(files, options) as u64,
            skipped_files: left_out(files, options).len() as u64,
            estimated_tokens: capped(all_tokens(files, options)),
            included_bytes: capped(all_bytes(files, options)),
            filtered_generated_files: left_out_for(
                files,
                options,
                ContextSkippedReason::ExcludedGenerated,
            ) as u64,
            filtered_vendor_files: left_out_for(
                files,
                options,
                ContextSkippedReason::ExcludedVendor,
            ) as u64,
        },
        groups: order::sorted_by(
            group_rows(files, options),
            order::by_key::<ContextGroupRow>(),
        ),
        skipped: order::sorted_by(
            left_out(files, options),
            order::by_key::<ContextSkippedRow>(),
        ),
        budget: match options.budget_tokens {
            Some(budget_tokens) => Some(
                compared(budget_tokens, capped(all_tokens(files, options))),
            ),
            None => None,
        },
    }
}

impl Ordered for ContextGroupRow {
    /// Groups are ordered by tokens, most first, then by path.
    open spec fn key(v: ContextGroupRowView) -> Seq<KeyPart> {
        seq![KeyPart::Number(-(v.estimated_tokens as int)), KeyPart::Text(v.path)]
    }

    fn comes_before(&self, other: &Self) -> (r: bool) {
        proof {
            reveal_with_fuel(order::key_lt_from, 3);
        }
        if self.estimated_tokens != other.estimated_tokens {
            return self.estimated_tokens > other.estimated_tokens;
        }
        text::precedes(self.path.as_str(), other.path.as_str())
    }
}

impl Ordered for ContextSkippedRow {
    /// Files that are left out are ordered by path.
    open spec fn key(v: ContextSkippedRowView) -> Seq<KeyPart> {
        seq![KeyPart::Text(v.path)]
    }

    fn comes_before(&self, other: &Self) -> (r: bool) {
        proof {
            reveal_with_fuel(order::key_lt_from, 2);
        }
        text::precedes(self.path.as_str(), other.path.as_str())
    }
}

fn has_unreadable_warning(file: &FileRecord) -> (r: bool)
    ensures
        r == could_not_read(file.deep_view()),
{
    let ghost all = file.deep_view().warnings;
    let mut i: usize = 0;
    while i < file.warnings.len()
        invariant
            i <= file.warnings.len(),
            all == file.deep_view().warnings,
            forall|j: int|
                0 <= j < i ==> (#[trigger] all[j]).code != "read_failed"@ && all[j].code
                    != "metadata_failed"@,
        decreases file.warnings.len() - i,
    {
        let code = file.warnings[i].code;
        assert(all[i as int].code == code@);
        if text::same(code, "read_failed") || text::same(code, "metadata_failed") {
            return true;
        }
        i = i + 1;
    }
    false
}

fn included_byte_size(file: &FileRecord, options: ContextOptions) -> (r: Result<
    u64,
    ContextSkippedReason,
>)
    ensures
        r == fate(file.deep_view(), options),
{
    if options.exclude_generated && file.is_generated {
        return Err(ContextSkippedReason::ExcludedGenerated);
    }
    if options.exclude_vendor && file.is_vendor {
        return Err(ContextSkippedReason::ExcludedVendor);
    }
    if has_unreadable_warning(file) {
        return Err(ContextSkippedReason::Unreadable);
    }
    match file.content {
        ContentKind::Text => match file.byte_size {
            Some(n) => Ok(n),
            None => Err(ContextSkippedReason::MissingByteSize),
        },
        ContentKind::Binary => Err(ContextSkippedReason::Binary),
        ContentKind::Unknown => Err(ContextSkippedReason::UnknownContent),
    }
}

/// The tokens of a text of `byte_size` bytes.
pub fn estimate_tokens(byte_size: u64) -> (n: u64)
    ensures
        n == tokens(byte_size as nat),
{
    let quarter: u64 = byte_size / 4;
    if byte_size % 4 != 0 {
        quarter + 1
    } else {
        quarter
    }
}

/// The group of a file: its top-level directory, or `.` where it has none.
pub fn context_group_path(path: &str) -> (out: String)
    ensures
        out@ == group_of(path@),
{
    let pieces = text::split_text(path, '/');
    let first = &pieces[0];
    assert(pieces.deep_view()[0] == first@);
    if first.as_str().is_empty() || text::same(first.as_str(), path) {
        ".".to_owned()
    } else {
        first.clone()
    }
}

/// How an estimate compares with a budget.
pub fn budget_status(budget_tokens: u64, estimated_tokens: u64) -> (out: ContextBudgetStatus)
    ensures
        out == compared(budget_tokens, estimated_tokens),
{
    ContextBudgetStatus {
        budget_tokens,
        estimated_tokens,
        remaining_tokens: if estimated_tokens <= budget_tokens {
            Some(budget_tokens - estimated_tokens)
        } else {
            None
        },
        over_budget_tokens: if budget_tokens <= estimated_tokens {
            Some(estimated_tokens - budget_tokens)
        } else {
            None
        },
    }
}

fn capped_sum(a: u64, b: u64, Ghost(sum): Ghost<nat>) -> (n: u64)
    requires
        a == capped(sum),
    ensures
        n == capped(sum + b as nat),
{
    if a > u64::MAX - b {
        u64::MAX
    } else {
        a + b
    }
}

/// Sums of one group.
struct GroupSums {
    file_count: u64,
    byte_size: u64,
    estimated_tokens: u64,
}

impl GroupSums {
    spec fn holds(
        &self,
        files: Seq<FileRecordView>,
        options: ContextOptions,
        group: Seq<char>,
    ) -> bool {
        &&& self.file_count == group_files(files, options, group)
        &&& self.byte_size == capped(group_bytes(files, options, group))
        &&& self.estimated_tokens == capped(group_tokens(files, options, group))
    }
}

proof fn counts_are_bounded(
    files: Seq<FileRecordView>,
    options: ContextOptions,
    group: Seq<char>,
)
    ensures
        counted_files(files, options) <= files.len(),
        group_files(files, options, group) <= files.len(),
        left_out(files, options).len() <= files.len(),
        left_out_for(files, options, ContextSkippedReason::ExcludedGenerated) <= files.len(),
        left_out_for(files, options, ContextSkippedReason::ExcludedVendor) <= files.len(),
        !group_paths(files, options).contains(group) ==> group_files(files, options, group) == 0
            && group_bytes(files, options, group) == 0 && group_tokens(files, options, group) == 0,
    decreases files.len(),
{
    if files.len() > 0 {
        counts_are_bounded(files.drop_last(), options, group);
    }
}

/// Adds one counted file to its group.
fn add_to_group(
    groups: &mut TextMap<GroupSums>,
    file: &FileRecord,
    byte_size: u64,
    options: ContextOptions,
    Ghost(done): Ghost<Seq<FileRecordView>>,
)
    requires
        old(groups).wf(),
        done.len() < u64::MAX,
        fate(file.deep_view(), options) == Ok::<u64, ContextSkippedReason>(byte_size),
        old(groups)@.dom() == group_paths(done, options),
        forall|g: Seq<char>| #[trigger]
            old(groups)@.dom().contains(g) ==> old(groups)@[g].holds(done, options, g),
    ensures
        final(groups).wf(),
        final(groups)@.dom() == group_paths(done.push(file.deep_view()), options),
        forall|g: Seq<char>| #[trigger]
            final(groups)@.dom().contains(g) ==> final(groups)@[g].holds(
                done.push(file.deep_view()),
                options,
                g,
            ),
{
    let ghost now = done.push(file.deep_view());
    let ghost before = groups@;
    let group = context_group_path(file.path.as_str());
    let added: u64 = estimate_tokens(byte_size);
    proof {
        assert(now.drop_last() =~= done);
        counts_are_bounded(done, options, group@);
    }
    let sums = match groups.get(group.as_str()) {
        Some(sums) => GroupSums {
            file_count: sums.file_count + 1,
            byte_size: capped_sum(
                sums.byte_size,
                byte_size,
                Ghost(group_bytes(done, options, group@)),
            ),
            estimated_tokens: capped_sum(
                sums.estimated_tokens,
                added,
                Ghost(group_tokens(done, options, group@)),
            ),
        },
        None => GroupSums { file_count: 1, byte_size, estimated_tokens: added },
    };
    groups.insert(group.as_str(), sums);
    proof {
        assert(groups@.dom() =~= group_paths(now, options));
        assert forall|g: Seq<char>| #[trigger] groups@.dom().contains(g) implies groups@[g].holds(
            now,
            options,
            g,
        ) by {
            if g != group@ {
                assert(before.dom().contains(g));
            }
        }
    }
}

fn rows_of_groups(
    groups: TextMap<GroupSums>,
    Ghost(files): Ghost<Seq<FileRecordView>>,
    Ghost(options): Ghost<ContextOptions>,
) -> (out: Vec<ContextGroupRow>)
    requires
        groups.wf(),
        groups@.dom() == group_paths(files, options),
        forall|g: Seq<char>| #[trigger]
            groups@.dom().contains(g) ==> groups@[g].holds(files, options, g),
    ensures
        out.deep_view() == group_rows(files, options),
{
    let ghost listed = groups.keys.deep_view();
    let ghost rows = group_rows(files, options);
    proof {
        groups.keys_are_dom();
        table::listing_of_ascending(listed);
    }
    let mut out: Vec<ContextGroupRow> = Vec::new();
    let mut i: usize = 0;
    assert(out.deep_view() =~= rows.take(0));
    while i < groups.keys.len()
        invariant
            i <= groups.keys.len(),
            groups.wf(),
            listed == groups.keys.deep_view(),
            listed == table::listing(group_paths(files, options)),
            rows == group_rows(files, options),
            forall|g: Seq<char>| #[trigger]
                groups@.dom().contains(g) ==> groups@[g].holds(files, options, g),
            out.deep_view() == rows.take(i as int),
        decreases groups.keys.len() - i,
    {
        proof {
            groups.at_index(i as int);
        }
        let sums = &groups.values[i];
        let ghost before = out.deep_view();
        let row = ContextGroupRow {
            path: groups.keys[i].clone(),
            file_count: sums.file_count,
            byte_size: sums.byte_size,
            estimated_tokens: sums.estimated_tokens,
        };
        let ghost value = row.deep_view();
        assert(value == rows[i as int]);
        out.push(row);
        assert(out.deep_view() =~= before.push(value));
        assert(rows.take(i + 1) =~= rows.take(i as int).push(rows[i as int]));
        i = i + 1;
    }
    assert(rows.take(i as int) =~= rows);
    out
}

/// Estimates how many tokens the text files take, by top-level directory.
pub fn estimate_context(files: &[FileRecord], options: ContextOptions) -> (out: ContextReport)
    ensures
        out.deep_view() == estimate(files.deep_view(), options),
{
    let ghost all = files.deep_view();
    let mut groups: TextMap<GroupSums> = TextMap::new();
    let mut skipped: Vec<ContextSkippedRow> = Vec::new();
    let mut included_files: u64 = 0;
    let mut estimated_tokens: u64 = 0;
    let mut included_bytes: u64 = 0;
    let mut filtered_generated_files: u64 = 0;
    let mut filtered_vendor_files: u64 = 0;
    let mut i: usize = 0;
    assert(groups@.dom() =~= group_paths(all.take(0), options));
    assert(skipped.deep_view() =~= left_out(all.take(0), options));
    while i < files.len()
        invariant
            i <= files.len(),
            all == files.deep_view(),
            groups.wf(),
            groups@.dom() == group_paths(all.take(i as int), options),
            forall|g: Seq<char>| #[trigger]
                groups@.dom().contains(g) ==> groups@[g].holds(all.take(i as int), options, g),
            skipped.deep_view() == left_out(all.take(i as int), options),
            included_files == counted_files(all.take(i as int), options),
            estimated_tokens == capped(all_tokens(all.take(i as int), options)),
            included_bytes == capped(all_bytes(all.take(i as int), options)),
            filtered_generated_files == left_out_for(
                all.take(i as int),
                options,
                ContextSkippedReason::ExcludedGenerated,
            ),
            filtered_vendor_files == left_out_for(
                all.take(i as int),
                options,
                ContextSkippedReason::ExcludedVendor,
            ),
        decreases files.len() - i,
    {
        let file = &files[i];
        let ghost done = all.take(i as int);
        let ghost now = all.take(i + 1);
        let ghost before = skipped.deep_view();
        proof {
            assert(now =~= done.push(file.deep_view()));
            assert(now.drop_last() =~= done);
            counts_are_bounded(done, options, Seq::empty());
        }
        match included_byte_size(file, options) {
            Err(reason) => {
                if reason == ContextSkippedReason::ExcludedGenerated {
                    filtered_generated_files = filtered_generated_files + 1;
                }
                if reason == ContextSkippedReason::ExcludedVendor {
                    filtered_vendor_files = filtered_vendor_files + 1;
                }
                skipped.push(ContextSkippedRow { path: file.path.clone(), reason });
                assert(skipped.deep_view() =~= left_out(now, options));
                proof {
                    assert forall|g: Seq<char>| #[trigger] groups@.dom().contains(
                        g,
                    ) implies groups@[g].holds(now, options, g) by {
                        assert(groups@[g].holds(done, options, g));
                    }
                }
            },
            Ok(byte_size) => {
                let added: u64 = estimate_tokens(byte_size);
                add_to_group(&mut groups, file, byte_size, options, Ghost(done));
                included_files = included_files + 1;
                included_bytes = capped_sum(
                    included_bytes,
                    byte_size,
                    Ghost(all_bytes(done, options)),
                );
                estimated_tokens = capped_sum(
                    estimated_tokens,
                    added,
                    Ghost(all_tokens(done, options)),
                );
            },
        }
        i = i + 1;
    }
    assert(all.take(i as int) =~= all);
    proof {
        counts_are_bounded(all, options, Seq::empty());
    }
    let rows = rows_of_groups(groups, Ghost(all), Ghost(options));
    let summary = ContextSummary {
        total_files: files.len() as u64,
        included_files,
        skipped_files: skipped.len() as u64,
        estimated_tokens,
        included_bytes,
        filtered_generated_files,
        filtered_vendor_files,
    };
    ContextReport {
        schema_version: CONTEXT_SCHEMA_VERSION,
        options,
        summary,
        groups: order::sort(rows),
        skipped: order::sort(skipped),
        budget: match options.budget_tokens {
            Some(budget_tokens) => Some(budget_status(budget_tokens, estimated_tokens)),
            None => None,
        },
    }
}

/// Every file is counted or left out.
pub proof fn every_file_is_counted_or_left_out(files: Seq<FileRecordView>, options: ContextOptions)
    ensures
        counted_files(files, options) + left_out(files, options).len() == files.len(),
    decreases files.len(),
{
    if files.len() > 0 {
        every_file_is_counted_or_left_out(files.drop_last(), options);
    }
}

/// Without filters no file is left out for being generated or vendored.
pub proof fn nothing_is_filtered_by_default(
    files: Seq<FileRecordView>,
    budget_tokens: Option<u64>,
)
    ensures
        left_out_for(
            files,
            ContextOptions { exclude_generated: false, exclude_vendor: false, budget_tokens },
            ContextSkippedReason::ExcludedGenerated,
        ) == 0,
        left_out_for(
            files,
            ContextOptions { exclude_generated: false, exclude_vendor: false, budget_tokens },
            ContextSkippedReason::ExcludedVendor,
        ) == 0,
    decreases files.len(),
{
    if files.len() > 0 {
        nothing_is_filtered_by_default(files.drop_last(), budget_tokens);
    }
}

/// The sum of a figure over the groups in `listed`.
pub open spec fn sum_over(listed: Seq<Seq<char>>, figure: spec_fn(Seq<char>) -> nat) -> nat
    decreases listed.len(),
{
    if listed.len() == 0 {
        0
    } else {
        sum_over(listed.drop_last(), figure) + figure(listed.last())
    }
}

/// The number of files of each group.
pub open spec fn files_figure(
    files: Seq<FileRecordView>,
    options: ContextOptions,
) -> spec_fn(Seq<char>) -> nat {
    |group: Seq<char>| group_files(files, options, group)
}

/// The bytes of each group.
pub open spec fn bytes_figure(
    files: Seq<FileRecordView>,
    options: ContextOptions,
) -> spec_fn(Seq<char>) -> nat {
    |group: Seq<char>| group_bytes(files, options, group)
}

/// The tokens of each group.
pub open spec fn tokens_figure(
    files: Seq<FileRecordView>,
    options: ContextOptions,
) -> spec_fn(Seq<char>) -> nat {
    |group: Seq<char>| group_tokens(files, options, group)
}

/// Sums of figures that differ at one group at most.
proof fn sum_grows_at(
    listed: Seq<Seq<char>>,
    before: spec_fn(Seq<char>) -> nat,
    after: spec_fn(Seq<char>) -> nat,
    group: Seq<char>,
    step: nat,
)
    requires
        listed.no_duplicates(),
        forall|g: Seq<char>| g != group ==> #[trigger] after(g) == before(g),
        after(group) == before(group) + step,
    ensures
        sum_over(listed, after) == sum_over(listed, before) + if listed.contains(group) {
            step
        } else {
            0
        },
    decreases listed.len(),
{
    if listed.len() > 0 {
        let front = listed.drop_last();
        assert(front.no_duplicates());
        sum_grows_at(front, before, after, group, step);
        if listed.contains(group) {
            let i = choose|i: int| 0 <= i < listed.len() && listed[i] == group;
            if i < front.len() {
                assert(front[i] == group);
            }
        }
        if front.contains(group) {
            let i = choose|i: int| 0 <= i < front.len() && front[i] == group;
            assert(listed[i] == group);
            assert(listed.last() != group);
        } else if listed.contains(group) {
            assert(listed.last() == group);
        }
    }
}

proof fn sum_of_zeros(listed: Seq<Seq<char>>, figure: spec_fn(Seq<char>) -> nat)
    requires
        forall|g: Seq<char>| #[trigger] figure(g) == 0,
    ensures
        sum_over(listed, figure) == 0,
    decreases listed.len(),
{
    if listed.len() > 0 {
        sum_of_zeros(listed.drop_last(), figure);
    }
}

/// Over any list of different groups that holds every group of the files, the groups
/// add up to the whole: in files, in bytes and in tokens.
pub proof fn groups_add_up(
    files: Seq<FileRecordView>,
    options: ContextOptions,
    listed: Seq<Seq<char>>,
)
    requires
        listed.no_duplicates(),
        group_paths(files, options).subset_of(listed.to_set()),
    ensures
        sum_over(listed, files_figure(files, options)) == counted_files(files, options),
        sum_over(listed, bytes_figure(files, options)) == all_bytes(files, options),
        sum_over(listed, tokens_figure(files, options)) == all_tokens(files, options),
    decreases files.len(),
{
    if files.len() == 0 {
        sum_of_zeros(listed, files_figure(files, options));
        sum_of_zeros(listed, bytes_figure(files, options));
        sum_of_zeros(listed, tokens_figure(files, options));
    } else {
        let front = files.drop_last();
        let file = files.last();
        let group = group_of(file.path);
        assert(group_paths(front, options).subset_of(group_paths(files, options)));
        groups_add_up(front, options, listed);
        if fate(file, options) is Ok {
            assert(group_paths(files, options).contains(group));
            assert(listed.to_set().contains(group));
        }
        sum_grows_at(
            listed,
            files_figure(front, options),
            files_figure(files, options),
            group,
            counts_for(file, options, group),
        );
        sum_grows_at(
            listed,
            bytes_figure(front, options),
            bytes_figure(files, options),
            group,
            bytes_for(file, options, group),
        );
        sum_grows_at(
            listed,
            tokens_figure(front, options),
            tokens_figure(files, options),
            group,
            tokens_for(file, options, group),
        );
    }
}

/// The number that the digits of a budget stand for, times what its suffix stands for.
pub open spec fn scaled(digits: Seq<char>, multiplier: nat) -> Result<nat, BudgetParseError> {
    if digits.len() == 0 || exists|i: int|
        0 <= i < digits.len() && !numbers::is_digit(#[trigger] digits[i]) {
        Err(BudgetParseError::InvalidDigits)
    } else {
        match numbers::digits_value(digits, u64::MAX as nat) {
            Err(_) => Err(BudgetParseError::Overflow),
            Ok(value) => if value == 0 {
                Err(BudgetParseError::Zero)
            } else if value * multiplier > u64::MAX {
                Err(BudgetParseError::Overflow)
            } else {
                Ok(value * multiplier)
            },
        }
    }
}

/// The budget that a text stands for: a positive whole number, with `k` for thousands
/// and `m` for millions.
pub open spec fn budget_value(input: Seq<char>) -> Result<nat, BudgetParseError> {
    let s = text::trimmed(input);
    if s.len() == 0 {
        Err(BudgetParseError::Empty)
    } else if s[0] == '-' {
        Err(BudgetParseError::Negative)
    } else if s.contains('.') {
        Err(BudgetParseError::Decimal)
    } else if s.last() == 'k' || s.last() == 'K' {
        scaled(s.drop_last(), 1_000)
    } else if s.last() == 'm' || s.last() == 'M' {
        scaled(s.drop_last(), 1_000_000)
    } else if numbers::is_digit(s.last()) {
        scaled(s, 1)
    } else {
        Err(BudgetParseError::UnknownSuffix)
    }
}

proof fn digits_have_no_sign(s: Seq<char>, limit: nat)
    requires
        s.len() > 0,
        forall|i: int| 0 <= i < s.len() ==> numbers::is_digit(#[trigger] s[i]),
    ensures
        numbers::unsigned_value(s, limit) == numbers::digits_value(s, limit),
{
    assert(numbers::is_digit(s[0]));
}

fn scale(digits: &[char], multiplier: u64) -> (r: Result<u64, BudgetParseError>)
    requires
        multiplier > 0,
    ensures
        match r {
            Ok(n) => scaled(digits@, multiplier as nat) == Ok::<nat, BudgetParseError>(n as nat),
            Err(e) => scaled(digits@, multiplier as nat) == Err::<nat, BudgetParseError>(e),
        },
{
    if digits.len() == 0 {
        return Err(BudgetParseError::InvalidDigits);
    }
    let mut i: usize = 0;
    while i < digits.len()
        invariant
            i <= digits.len(),
            forall|j: int| 0 <= j < i ==> numbers::is_digit(#[trigger] digits@[j]),
        decreases digits.len() - i,
    {
        let c: char = digits[i];
        if !('0' <= c && c <= '9') {
            assert(!numbers::is_digit(digits@[i as int]));
            return Err(BudgetParseError::InvalidDigits);
        }
        i = i + 1;
    }
    proof {
        digits_have_no_sign(digits@, u64::MAX as nat);
    }
    let number = text::string_of(digits);
    let value: u64 = match numbers::parse_u64(number.as_str()) {
        Ok(value) => value,
        Err(_) => return Err(BudgetParseError::Overflow),
    };
    if value == 0 {
        return Err(BudgetParseError::Zero);
    }
    match value.checked_mul(multiplier) {
        Some(n) => Ok(n),
        None => Err(BudgetParseError::Overflow),
    }
}

/// Reads a budget: a positive whole number, with `k` for thousands and `m` for
/// millions.
pub fn parse_budget_tokens(input: &str) -> (r: Result<u64, BudgetParseError>)
    ensures
        match r {
            Ok(n) => budget_value(input@) == Ok::<nat, BudgetParseError>(n as nat),
            Err(e) => budget_value(input@) == Err::<nat, BudgetParseError>(e),
        },
{
    let trimmed = text::trim(input);
    let chars = text::chars_of(trimmed.as_str());
    if chars.len() == 0 {
        return Err(BudgetParseError::Empty);
    }
    if chars[0] == '-' {
        return Err(BudgetParseError::Negative);
    }
    let mut i: usize = 0;
    while i < chars.len()
        invariant
            i <= chars.len(),
            forall|j: int| 0 <= j < i ==> chars@[j] != '.',
        ensures
            !chars@.contains('.') || i < chars.len(),
            i < chars.len() ==> chars@[i as int] == '.',
        decreases chars.len() - i,
    {
        if chars[i] == '.' {
            break ;
        }
        i = i + 1;
    }
    if i < chars.len() {
        assert(chars@.contains(chars@[i as int]));
        return Err(BudgetParseError::Decimal);
    }
    let end: usize = chars.len() - 1;
    let last: char = chars[end];
    let front = vstd::slice::slice_subrange(chars.as_slice(), 0, end);
    assert(front@ =~= chars@.drop_last());
    if last == 'k' || last == 'K' {
        scale(front, 1_000)
    } else if last == 'm' || last == 'M' {
        scale(front, 1_000_000)
    } else if '0' <= last && last <= '9' {
        scale(chars.as_slice(), 1)
    } else {
        Err(BudgetParseError::UnknownSuffix)
    }
}

/// The active filters in words.
pub open spec fn filter_words(options: ContextOptions) -> Seq<char> {
    if options.exclude_generated && options.exclude_vendor {
        "exclude generated files"@ + ", "@ + "exclude vendor files"@
    } else if options.exclude_generated {
        "exclude generated files"@
    } else if options.exclude_vendor {
        "exclude vendor files"@
    } else {
        Seq::empty()
    }
}

/// The budget comparison in words.
pub open spec fn budget_words(budget: ContextBudgetStatus) -> Seq<char> {
    let verdict = match (budget.remaining_tokens, budget.over_budget_tokens) {
        (Some(remaining), _) => "within budget by "@ + numbers::decimal(remaining as nat),
        (None, Some(over)) => "over budget by "@ + numbers::decimal(over as nat),
        (None, None) => "within budget by 0"@,
    };
    verdict
        + " tokens (budget "@
        + numbers::decimal(budget.budget_tokens as nat)
        + ", estimated "@
        + numbers::decimal(budget.estimated_tokens as nat)
        + ")"@
}

/// A group as a line.
pub open spec fn group_line(out: Seq<char>, group: ContextGroupRowView) -> Seq<char> {
    out
        + "\n  "@
        + group.path
        + "  "@
        + numbers::decimal(group.estimated_tokens as nat)
        + "  "@
        + numbers::decimal(group.byte_size as nat)
        + "  "@
        + numbers::decimal(group.file_count as nat)
}

/// Groups as lines.
pub open spec fn group_lines(out: Seq<char>, groups: Seq<ContextGroupRowView>) -> Seq<char>
    decreases groups.len(),
{
    if groups.len() == 0 {
        out
    } else {
        group_line(group_lines(out, groups.drop_last()), groups.last())
    }
}

/// The context estimate as text.
pub open spec fn context_text(report: ContextReportView) -> Seq<char> {
    let head = "Hotpath context budget\nscope: current scanned UTF-8 text files from the working directory\nformula: estimated tokens = ceil(byte_size / 4) for UTF-8 text files\n\ntotal estimated tokens  "@
            + numbers::decimal(report.summary.estimated_tokens as nat)
            + "\nincluded files          "@
            + numbers::decimal(report.summary.included_files as nat)
            + "\nskipped files           "@
            + numbers::decimal(report.summary.skipped_files as nat)
            + "\nincluded bytes          "@
            + numbers::decimal(report.summary.included_bytes as nat);
    let filtered = if report.options.exclude_generated || report.options.exclude_vendor {
        head + "\noutput filters: "@ + filter_words(report.options)
    } else {
        head
    };
    let budgeted = match report.budget {
        Some(budget) => filtered + "\nbudget: "@ + budget_words(budget),
        None => filtered,
    };
    let titled = budgeted + "\n\ngroups\n  group path  estimated tokens  bytes  files"@;
    let listed = if report.groups.len() == 0 {
        titled + "\n  none"@
    } else {
        group_lines(titled, report.groups)
    };
    listed + "\n\ncalculation notes\n  - Offline deterministic approximation; no source text leaves the local machine.\n  - Tokenizer-specific counts vary by model and language, so treat this as planning guidance."@
}

/// The active filters in words.
pub fn render_context_output_filters(options: ContextOptions) -> (out: String)
    ensures
        out@ == filter_words(options),
{
    if options.exclude_generated {
        let mut out = "exclude generated files".to_owned();
        if options.exclude_vendor {
            out.append(", ");
            out.append("exclude vendor files");
        }
        out
    } else if options.exclude_vendor {
        "exclude vendor files".to_owned()
    } else {
        String::new()
    }
}

/// The budget comparison in words.
pub fn render_context_budget_status(budget: &ContextBudgetStatus) -> (text: String)
    ensures
        text@ == budget_words(*budget),
{
    let mut text = match (budget.remaining_tokens, budget.over_budget_tokens) {
        (Some(remaining), _) => {
            let mut verdict = "within budget by ".to_owned();
            numbers::push_decimal(&mut verdict, remaining);
            verdict
        },
        (None, Some(over)) => {
            let mut verdict = "over budget by ".to_owned();
            numbers::push_decimal(&mut verdict, over);
            verdict
        },
        (None, None) => "within budget by 0".to_owned(),
    };
    let out = &mut text;
    out.append(" tokens (budget ");
    numbers::push_decimal(out, budget.budget_tokens);
    out.append(", estimated ");
    numbers::push_decimal(out, budget.estimated_tokens);
    out.append(")");
    text
}

fn push_group_line(out: &mut String, group: &ContextGroupRow)
    ensures
        final(out)@ == group_line(old(out)@, group.deep_view()),
{
    out.append("\n  ");
    out.append(group.path.as_str());
    out.append("  ");
    numbers::push_decimal(out, group.estimated_tokens);
    out.append("  ");
    numbers::push_decimal(out, group.byte_size);
    out.append("  ");
    numbers::push_decimal(out, group.file_count);
}

/// Renders the context estimate.
pub fn render_context(report: &ContextReport) -> (text: String)
    ensures
        text@ == context_text(report.deep_view()),
{
    let mut text = "Hotpath context budget\nscope: current scanned UTF-8 text files from the working directory\nformula: estimated tokens = ceil(byte_size / 4) for UTF-8 text files\n\ntotal estimated tokens  ".to_owned();
    let out = &mut text;
    numbers::push_decimal(out, report.summary.estimated_tokens);
    out.append("\nincluded files          ");
    numbers::push_decimal(out, report.summary.included_files);
    out.append("\nskipped files           ");
    numbers::push_decimal(out, report.summary.skipped_files);
    out.append("\nincluded bytes          ");
    numbers::push_decimal(out, report.summary.included_bytes);
    if report.options.exclude_generated || report.options.exclude_vendor {
        out.append("\noutput filters: ");
        let filters = render_context_output_filters(report.options);
        out.append(filters.as_str());
    }
    match &report.budget {
        Some(budget) => {
            out.append("\nbudget: ");
            let words = render_context_budget_status(budget);
            out.append(words.as_str());
        },
        None => {},
    }
    out.append("\n\ngroups\n  group path  estimated tokens  bytes  files");
    let ghost start = out@;
    let ghost groups = report.groups.deep_view();
    if report.groups.len() == 0 {
        out.append("\n  none");
    } else {
        let mut i: usize = 0;
        while i < report.groups.len()
            invariant
                i <= report.groups.len(),
                groups == report.groups.deep_view(),
                out@ == group_lines(start, groups.take(i as int)),
            decreases report.groups.len() - i,
        {
            assert(groups.take(i + 1).drop_last() =~= groups.take(i as int));
            assert(groups.take(i + 1).last() == report.groups@[i as int].deep_view());
            push_group_line(out, &report.groups[i]);
            i = i + 1;
        }
        assert(groups.take(i as int) =~= groups);
    }
    out.append("\n\ncalculation notes\n  - Offline deterministic approximation; no source text leaves the local machine.\n  - Tokenizer-specific counts vary by model and language, so treat this as planning guidance.");
    text
}

/// A positive number is read back as a budget, in units, in thousands and in millions.
pub proof fn budgets_are_read_back(n: nat)
    requires
        0 < n <= u64::MAX,
    ensures
        budget_value(numbers::decimal(n)) == Ok::<nat, BudgetParseError>(n),
        n * 1_000 <= u64::MAX ==> budget_value(numbers::decimal(n).push('k')) == Ok::<
            nat,
            BudgetParseError,
        >(n * 1_000),
        n * 1_000_000 <= u64::MAX ==> budget_value(numbers::decimal(n).push('m')) == Ok::<
            nat,
            BudgetParseError,
        >(n * 1_000_000),
{
    let digits = numbers::decimal(n);
    numbers::decimal_digits(n);
    numbers::unsigned_decimal_round_trip(n, u64::MAX as nat);
    digits_have_no_sign(digits, u64::MAX as nat);
    assert(numbers::is_digit(digits[0]));
    assert(numbers::is_digit(digits.last()));
    assert(text::trimmed(digits) =~= digits);
    assert(!digits.contains('.'));
    let k = digits.push('k');
    assert(k.drop_last() =~= digits);
    assert(k[0] == digits[0]);
    assert(text::trimmed(k) =~= k);
    assert(!k.contains('.')) by {
        assert forall|i: int| 0 <= i < k.len() implies k[i] != '.' by {
            if i < digits.len() {
                assert(numbers::is_digit(digits[i]));
            }
        }
    }
    let m = digits.push('m');
    assert(m.drop_last() =~= digits);
    assert(m[0] == digits[0]);
    assert(text::trimmed(m) =~= m);
    assert(!m.contains('.')) by {
        assert forall|i: int| 0 <= i < m.len() implies m[i] != '.' by {
            if i < digits.len() {
                assert(numbers::is_digit(digits[i]));
            }
        }
    }
}

} // verus!
