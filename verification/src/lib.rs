//! Codebase risk analysis: which files of a repository are risky to change, and why.
//!
//! The library holds the logic and does no input or output. Files are scanned ([`scan`]), parsed
//! ([`parse`], [`languages`]) and joined by their imports ([`dependency`], [`graph`],
//! [`complexity`]); their history is read from what Git prints ([`git`], [`ownership`]). From
//! these come the explanations and rankings ([`explain`], [`hotspots`], [`scoring`]), the risk of
//! a diff ([`diff`]), the size of a context ([`context`]) and what a run puts out ([`run`],
//! [`commands`], [`operation_log`]).
//!
//! Each type has a mathematical view, and each function says over these views what it returns.

pub mod calendar;
pub mod commands;
pub mod complexity;
pub mod context;
pub mod dependency;
pub mod diff;
pub mod explain;
pub mod git;
pub mod graph;
pub mod hotspots;
pub mod index_lock;
pub mod languages;
pub mod measure;
pub mod numbers;
pub mod operation_log;
pub mod order;
pub mod ownership;
pub mod parse;
pub mod paths;
pub mod run;
pub mod scan;
pub mod scoring;
pub mod shown;
pub mod syntax;
pub mod table;
pub mod text;

pub use crate::commands::{
    doctor_repository, ContextCommandError, DiffCommandError, DoctorError, ExplainCommandError,
    ExplainGitCommandError, HotspotsCommandError, IndexError, ScanError,
};
pub use crate::complexity::{
    complexity_summary, ComplexityFileRecord, ComplexityReport, ComplexitySummary,
    ComplexitySymbolRecord, COMPLEXITY_SCHEMA_VERSION,
};
pub use crate::context::{
    estimate_context, parse_budget_tokens, BudgetParseError, ContextBudgetStatus, ContextGroupRow,
    ContextOptions, ContextReport, ContextSkippedReason, ContextSkippedRow, ContextSummary,
    CONTEXT_SCHEMA_VERSION,
};
pub use crate::dependency::fan::fan_metrics;
pub use crate::dependency::{
    resolve_dependencies, DependencyFanMetrics, FileDependencyFan, ResolvedDependencyEdge,
};
pub use crate::diff::risk::{
    diff_risk, pr_risk, DiffRiskReport, DiffRiskSummary, TouchedHotspot,
};
pub use crate::graph::{graph_summary, GraphReport, GraphSummary, GRAPH_SCHEMA_VERSION};
pub use crate::parse::report::parse_summary;
pub use crate::parse::{
    ParseFileReason, ParseFileRecord, ParseFileStatus, ParseImportRecord, ParseReport,
    ParseSummary, ParseSymbolRecord, ParseWarning,
};
pub use crate::scan::repository::scan_repository;
pub use crate::scan::summary::scan_summary;
pub use crate::scan::{
    ContentKind, ContentSummary, FileRecord, FileWarning, FlagSummary, ScanReport, ScanSummary,
    ScanWarning, WarningSummary,
};
pub use crate::scoring::{HotspotsOptions, DEFAULT_HOTSPOTS_LIMIT};
