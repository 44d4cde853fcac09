//! The facts of a file, as the database keeps them.

use vstd::prelude::*;

use crate::explain;
use crate::explain::{
    i64_to_u64, optional_i64_to_u64, ExplainFile, ExplainFileView, FileFactsRow, FileFactsRowView,
    RawMetrics, RawMetricsView,
};
use crate::measure::{Real, RealView};

verus! {

/// A row of file facts, as the database keeps it.
#[derive(Debug, Clone, PartialEq, Eq)]
pub struct FileFactsColumns {
    pub relative_path: String,
    pub absolute_path: String,
    pub active_scan_id: i64,
    pub language_id: Option<String>,
    pub content_kind: String,
    pub extension: Option<String>,
    pub is_generated: i64,
    pub is_vendor: i64,
    pub is_test: i64,
    pub parser_status: String,
    pub parser_recognition_attempts: i64,
    pub byte_size: Option<i64>,
    pub mtime_ms: Option<i64>,
    pub line_count: Option<i64>,
    pub symbol_count: i64,
    pub function_count: i64,
    pub method_count: i64,
    pub type_count: i64,
    pub import_count: i64,
    pub complexity_pressure: Option<i64>,
    pub max_function_complexity_pressure: Option<i64>,
    pub commits_per_file: i64,
    pub total_added_lines: i64,
    pub total_deleted_lines: i64,
    pub total_churn_lines: i64,
    pub recent_added_lines: i64,
    pub recent_deleted_lines: i64,
    pub recent_churn_lines: i64,
    pub author_count: i64,
    pub first_touch_timestamp: Option<i64>,
    pub last_touch_timestamp: Option<i64>,
    pub file_age_days: Option<i64>,
    pub owner_count: Option<i64>,
    pub dominant_owner: Option<String>,
    pub dominant_owner_share: Option<Real>,
    pub co_changed_file_count: i64,
    pub source_coupling_pressure_in: Option<i64>,
    pub source_coupling_pressure_out: Option<i64>,
    pub diagnostics: String,
}

/// What [`FileFactsColumns`] stand for.
#[verifier::ext_equal]
pub struct FileFactsColumnsView {
    pub relative_path: Seq<char>,
    pub absolute_path: Seq<char>,
    pub active_scan_id: i64,
    pub language_id: Option<Seq<char>>,
    pub content_kind: Seq<char>,
    pub extension: Option<Seq<char>>,
    pub is_generated: i64,
    pub is_vendor: i64,
    pub is_test: i64,
    pub parser_status: Seq<char>,
    pub parser_recognition_attempts: i64,
    pub byte_size: Option<i64>,
    pub mtime_ms: Option<i64>,
    pub line_count: Option<i64>,
    pub symbol_count: i64,
    pub function_count: i64,
    pub method_count: i64,
    pub type_count: i64,
    pub import_count: i64,
    pub complexity_pressure: Option<i64>,
    pub max_function_complexity_pressure: Option<i64>,
    pub commits_per_file: i64,
    pub total_added_lines: i64,
    pub total_deleted_lines: i64,
    pub total_churn_lines: i64,
    pub recent_added_lines: i64,
    pub recent_deleted_lines: i64,
    pub recent_churn_lines: i64,
    pub author_count: i64,
    pub first_touch_timestamp: Option<i64>,
    pub last_touch_timestamp: Option<i64>,
    pub file_age_days: Option<i64>,
    pub owner_count: Option<i64>,
    pub dominant_owner: Option<Seq<char>>,
    pub dominant_owner_share: Option<RealView>,
    pub co_changed_file_count: i64,
    pub source_coupling_pressure_in: Option<i64>,
    pub source_coupling_pressure_out: Option<i64>,
    pub diagnostics: Seq<char>,
}

impl DeepView for FileFactsColumns {
    type V = FileFactsColumnsView;

    open spec fn deep_view(&self) -> FileFactsColumnsView {
        FileFactsColumnsView {
            relative_path: self.relative_path@,
            absolute_path: self.absolute_path@,
            active_scan_id: self.active_scan_id,
            language_id: self.language_id.deep_view(),
            content_kind: self.content_kind@,
            extension: self.extension.deep_view(),
            is_generated: self.is_generated,
            is_vendor: self.is_vendor,
            is_test: self.is_test,
            parser_status: self.parser_status@,
            parser_recognition_attempts: self.parser_recognition_attempts,
            byte_size: self.byte_size.deep_view(),
            mtime_ms: self.mtime_ms.deep_view(),
            line_count: self.line_count.deep_view(),
            symbol_count: self.symbol_count,
            function_count: self.function_count,
            method_count: self.method_count,
            type_count: self.type_count,
            import_count: self.import_count,
            complexity_pressure: self.complexity_pressure.deep_view(),
            max_function_complexity_pressure: self.max_function_complexity_pressure.deep_view(),
            commits_per_file: self.commits_per_file,
            total_added_lines: self.total_added_lines,
            total_deleted_lines: self.total_deleted_lines,
            total_churn_lines: self.total_churn_lines,
            recent_added_lines: self.recent_added_lines,
            recent_deleted_lines: self.recent_deleted_lines,
            recent_churn_lines: self.recent_churn_lines,
            author_count: self.author_count,
            first_touch_timestamp: self.first_touch_timestamp.deep_view(),
            last_touch_timestamp: self.last_touch_timestamp.deep_view(),
            file_age_days: self.file_age_days.deep_view(),
            owner_count: self.owner_count.deep_view(),
            dominant_owner: self.dominant_owner.deep_view(),
            dominant_owner_share: self.dominant_owner_share.deep_view(),
            co_changed_file_count: self.co_changed_file_count,
            source_coupling_pressure_in: self.source_coupling_pressure_in.deep_view(),
            source_coupling_pressure_out: self.source_coupling_pressure_out.deep_view(),
            diagnostics: self.diagnostics@,
        }
    }
}

/// A count as the database keeps it, where it keeps one.
pub open spec fn counted_option(value: Option<i64>) -> Option<u64> {
    match value {
        Some(value) => Some(explain::counted(value)),
        None => None,
    }
}

/// The facts of a file: counts are never negative, and flags are set where they are not zero.
pub open spec fn facts_of(columns: FileFactsColumnsView) -> FileFactsRowView {
    FileFactsRowView {
        file: ExplainFileView {
            relative_path: columns.relative_path,
            absolute_path: columns.absolute_path,
            active_scan_id: explain::counted(columns.active_scan_id),
            language_id: columns.language_id,
            content_kind: columns.content_kind,
            extension: columns.extension,
            is_generated: columns.is_generated != 0,
            is_vendor: columns.is_vendor != 0,
            is_test: columns.is_test != 0,
            parser_status: columns.parser_status,
            parser_recognition_attempts: explain::counted(columns.parser_recognition_attempts),
        },
        raw_metrics: RawMetricsView {
            byte_size: counted_option(columns.byte_size),
            mtime_ms: counted_option(columns.mtime_ms),
            line_count: counted_option(columns.line_count),
            symbol_count: explain::counted(columns.symbol_count),
            function_count: explain::counted(columns.function_count),
            method_count: explain::counted(columns.method_count),
            type_count: explain::counted(columns.type_count),
            import_count: explain::counted(columns.import_count),
            complexity_pressure: counted_option(columns.complexity_pressure),
            max_function_complexity_pressure: counted_option(columns.max_function_complexity_pressure),
            commits_per_file: explain::counted(columns.commits_per_file),
            total_added_lines: explain::counted(columns.total_added_lines),
            total_deleted_lines: explain::counted(columns.total_deleted_lines),
            total_churn_lines: explain::counted(columns.total_churn_lines),
            recent_added_lines: explain::counted(columns.recent_added_lines),
            recent_deleted_lines: explain::counted(columns.recent_deleted_lines),
            recent_churn_lines: explain::counted(columns.recent_churn_lines),
            author_count: explain::counted(columns.author_count),
            first_touch_timestamp: counted_option(columns.first_touch_timestamp),
            last_touch_timestamp: counted_option(columns.last_touch_timestamp),
            file_age_days: counted_option(columns.file_age_days),
            owner_count: counted_option(columns.owner_count),
            dominant_owner: columns.dominant_owner,
            dominant_owner_share: columns.dominant_owner_share,
            co_changed_file_count: explain::counted(columns.co_changed_file_count),
            source_coupling_pressure_in: counted_option(columns.source_coupling_pressure_in),
            source_coupling_pressure_out: counted_option(columns.source_coupling_pressure_out),
        },
        diagnostics: columns.diagnostics,
    }
}

/// The facts of a file: counts are never negative, and flags are set where they are not zero.
pub fn load_file_facts(columns: FileFactsColumns) -> (out: FileFactsRow)
    ensures
        out.deep_view() == facts_of(columns.deep_view()),
{
    FileFactsRow {
        file: ExplainFile {
            relative_path: columns.relative_path,
            absolute_path: columns.absolute_path,
            active_scan_id: i64_to_u64(columns.active_scan_id),
            language_id: columns.language_id,
            content_kind: columns.content_kind,
            extension: columns.extension,
            is_generated: columns.is_generated != 0,
            is_vendor: columns.is_vendor != 0,
            is_test: columns.is_test != 0,
            parser_status: columns.parser_status,
            parser_recognition_attempts: i64_to_u64(columns.parser_recognition_attempts),
        },
        raw_metrics: RawMetrics {
            byte_size: optional_i64_to_u64(columns.byte_size),
            mtime_ms: optional_i64_to_u64(columns.mtime_ms),
            line_count: optional_i64_to_u64(columns.line_count),
            symbol_count: i64_to_u64(columns.symbol_count),
            function_count: i64_to_u64(columns.function_count),
            method_count: i64_to_u64(columns.method_count),
            type_count: i64_to_u64(columns.type_count),
            import_count: i64_to_u64(columns.import_count),
            complexity_pressure: optional_i64_to_u64(columns.complexity_pressure),
            max_function_complexity_pressure: optional_i64_to_u64(columns.max_function_complexity_pressure),
            commits_per_file: i64_to_u64(columns.commits_per_file),
            total_added_lines: i64_to_u64(columns.total_added_lines),
            total_deleted_lines: i64_to_u64(columns.total_deleted_lines),
            total_churn_lines: i64_to_u64(columns.total_churn_lines),
            recent_added_lines: i64_to_u64(columns.recent_added_lines),
            recent_deleted_lines: i64_to_u64(columns.recent_deleted_lines),
            recent_churn_lines: i64_to_u64(columns.recent_churn_lines),
            author_count: i64_to_u64(columns.author_count),
            first_touch_timestamp: optional_i64_to_u64(columns.first_touch_timestamp),
            last_touch_timestamp: optional_i64_to_u64(columns.last_touch_timestamp),
            file_age_days: optional_i64_to_u64(columns.file_age_days),
            owner_count: optional_i64_to_u64(columns.owner_count),
            dominant_owner: columns.dominant_owner,
            dominant_owner_share: columns.dominant_owner_share,
            co_changed_file_count: i64_to_u64(columns.co_changed_file_count),
            source_coupling_pressure_in: optional_i64_to_u64(columns.source_coupling_pressure_in),
            source_coupling_pressure_out: optional_i64_to_u64(columns.source_coupling_pressure_out),
        },
        diagnostics: columns.diagnostics,
    }
}

} // verus!
