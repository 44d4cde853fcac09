//! How complex the sources of a repository are.

pub mod laws;

use vstd::prelude::*;

use crate::dependency;
use crate::dependency::fan;
use crate::dependency::{FileDependencyFan, ResolvedDependencyEdgeView};
use crate::numbers;
use crate::order;
use crate::order::{KeyPart, Ordered};
use crate::parse::report;
use crate::parse::{
    ParseFileRecord, ParseFileRecordView, ParseFileStatus, ParseReport, ParseReportView,
    ParseSymbolRecord, ParseSymbolRecordView,
};
use crate::table;
use crate::table::TextMap;
use crate::text;

verus! {

pub const COMPLEXITY_SCHEMA_VERSION: &'static str = "hotpath.complexity.v1";

/// A symbol of this many lines is large.
pub const LARGE_SYMBOL_LINE_THRESHOLD: u64 = 80;

/// So many functions and methods are ranked in a summary.
pub const DEFAULT_RANKED_SYMBOL_LIMIT: usize = 10;

/// The totals of a report on complexity.
#[derive(Debug, Clone, Copy, PartialEq, Eq, Structural)]
pub struct ComplexitySummary {
    pub total_files: u64,
    pub parsed_files: u64,
    pub symbol_count: u64,
    pub function_method_count: u64,
    pub large_symbol_count: u64,
    pub max_cyclomatic_complexity: u64,
    pub max_nesting_depth: u64,
    pub dependency_edge_count: u64,
    pub max_fan_in: u64,
    pub max_fan_out: u64,
}

/// How complex a file is.
#[derive(Debug, Clone, PartialEq, Eq)]
pub struct ComplexityFileRecord {
    pub path: String,
    pub language: Option<&'static str>,
    pub status: ParseFileStatus,
    pub symbol_count: u64,
    pub function_method_count: u64,
    pub large_symbol_count: u64,
    pub max_cyclomatic_complexity: Option<u64>,
    pub max_nesting_depth: Option<u64>,
    pub fan_in: u64,
    pub fan_out: u64,
}

/// How complex a symbol is.
#[derive(Debug, Clone, PartialEq, Eq)]
pub struct ComplexitySymbolRecord {
    pub path: String,
    pub name: String,
    pub kind: String,
    pub start_line: u64,
    pub end_line: u64,
    pub length_lines: u64,
    pub function_length_lines: Option<u64>,
    pub nesting_depth: u64,
    pub cyclomatic_complexity: Option<u64>,
    pub max_control_flow_nesting: Option<u64>,
    pub is_large_symbol: bool,
}

/// How complex the sources of a repository are.
#[derive(Debug, Clone, PartialEq, Eq)]
pub struct ComplexityReport {
    pub summary: ComplexitySummary,
    pub files: Vec<ComplexityFileRecord>,
    pub symbols: Vec<ComplexitySymbolRecord>,
}

/// A function or method by its rank.
#[derive(Debug, Clone, PartialEq, Eq)]
pub struct RankedSymbol {
    pub cyclomatic_complexity: u64,
    pub max_control_flow_nesting: u64,
    pub length_lines: u64,
    pub path: String,
    pub start_line: u64,
    pub kind: String,
    pub name: String,
}

impl DeepView for ComplexitySummary {
    type V = ComplexitySummary;

    open spec fn deep_view(&self) -> ComplexitySummary {
        *self
    }
}

/// What a [`ComplexityFileRecord`] stands for.
#[verifier::ext_equal]
pub struct ComplexityFileRecordView {
    pub path: Seq<char>,
    pub language: Option<Seq<char>>,
    pub status: ParseFileStatus,
    pub symbol_count: u64,
    pub function_method_count: u64,
    pub large_symbol_count: u64,
    pub max_cyclomatic_complexity: Option<u64>,
    pub max_nesting_depth: Option<u64>,
    pub fan_in: u64,
    pub fan_out: u64,
}

impl DeepView for ComplexityFileRecord {
    type V = ComplexityFileRecordView;

    open spec fn deep_view(&self) -> ComplexityFileRecordView {
        ComplexityFileRecordView {
            path: self.path@,
            language: self.language.deep_view(),
            status: self.status,
            symbol_count: self.symbol_count,
            function_method_count: self.function_method_count,
            large_symbol_count: self.large_symbol_count,
            max_cyclomatic_complexity: self.max_cyclomatic_complexity.deep_view(),
            max_nesting_depth: self.max_nesting_depth.deep_view(),
            fan_in: self.fan_in,
            fan_out: self.fan_out,
        }
    }
}

/// What a [`ComplexitySymbolRecord`] stands for.
#[verifier::ext_equal]
pub struct ComplexitySymbolRecordView {
    pub path: Seq<char>,
    pub name: Seq<char>,
    pub kind: Seq<char>,
    pub start_line: u64,
    pub end_line: u64,
    pub length_lines: u64,
    pub function_length_lines: Option<u64>,
    pub nesting_depth: u64,
    pub cyclomatic_complexity: Option<u64>,
    pub max_control_flow_nesting: Option<u64>,
    pub is_large_symbol: bool,
}

impl DeepView for ComplexitySymbolRecord {
    type V = ComplexitySymbolRecordView;

    open spec fn deep_view(&self) -> ComplexitySymbolRecordView {
        ComplexitySymbolRecordView {
            path: self.path@,
            name: self.name@,
            kind: self.kind@,
            start_line: self.start_line,
            end_line: self.end_line,
            length_lines: self.length_lines,
            function_length_lines: self.function_length_lines.deep_view(),
            nesting_depth: self.nesting_depth,
            cyclomatic_complexity: self.cyclomatic_complexity.deep_view(),
            max_control_flow_nesting: self.max_control_flow_nesting.deep_view(),
            is_large_symbol: self.is_large_symbol,
        }
    }
}

/// What a [`ComplexityReport`] stands for.
#[verifier::ext_equal]
pub struct ComplexityReportView {
    pub summary: ComplexitySummary,
    pub files: Seq<ComplexityFileRecordView>,
    pub symbols: Seq<ComplexitySymbolRecordView>,
}

impl DeepView for ComplexityReport {
    type V = ComplexityReportView;

    open spec fn deep_view(&self) -> ComplexityReportView {
        ComplexityReportView {
            summary: self.summary,
            files: self.files.deep_view(),
            symbols: self.symbols.deep_view(),
        }
    }
}

/// What a [`RankedSymbol`] stands for.
#[verifier::ext_equal]
pub struct RankedSymbolView {
    pub cyclomatic_complexity: u64,
    pub max_control_flow_nesting: u64,
    pub length_lines: u64,
    pub path: Seq<char>,
    pub start_line: u64,
    pub kind: Seq<char>,
    pub name: Seq<char>,
}

impl DeepView for RankedSymbol {
    type V = RankedSymbolView;

    open spec fn deep_view(&self) -> RankedSymbolView {
        RankedSymbolView {
            cyclomatic_complexity: self.cyclomatic_complexity,
            max_control_flow_nesting: self.max_control_flow_nesting,
            length_lines: self.length_lines,
            path: self.path@,
            start_line: self.start_line,
            kind: self.kind@,
            name: self.name@,
        }
    }
}

impl Ordered for RankedSymbol {
    /// The most complex first, then the deepest, then the longest; then by place.
    open spec fn key(v: RankedSymbolView) -> Seq<KeyPart> {
        seq![
            KeyPart::Number(-(v.cyclomatic_complexity as int)),
            KeyPart::Number(-(v.max_control_flow_nesting as int)),
            KeyPart::Number(-(v.length_lines as int)),
            KeyPart::Text(v.path),
            KeyPart::Number(v.start_line as int),
            KeyPart::Text(v.kind),
            KeyPart::Text(v.name),
        ]
    }

    fn comes_before(&self, other: &Self) -> (r: bool) {
        proof {
            reveal_with_fuel(order::key_lt_from, 8);
        }
        if other.cyclomatic_complexity < self.cyclomatic_complexity {
            return true;
        }
        if self.cyclomatic_complexity < other.cyclomatic_complexity {
            return false;
        }
        if other.max_control_flow_nesting < self.max_control_flow_nesting {
            return true;
        }
        if self.max_control_flow_nesting < other.max_control_flow_nesting {
            return false;
        }
        if other.length_lines < self.length_lines {
            return true;
        }
        if self.length_lines < other.length_lines {
            return false;
        }
        if text::precedes(self.path.as_str(), other.path.as_str()) {
            return true;
        }
        if text::precedes(other.path.as_str(), self.path.as_str()) {
            return false;
        }
        if self.start_line < other.start_line {
            return true;
        }
        if other.start_line < self.start_line {
            return false;
        }
        if text::precedes(self.kind.as_str(), other.kind.as_str()) {
            return true;
        }
        if text::precedes(other.kind.as_str(), self.kind.as_str()) {
            return false;
        }
        text::precedes(self.name.as_str(), other.name.as_str())
    }
}

/// Whether a kind of symbol is a function or a method.
pub open spec fn is_function_kind(kind: Seq<char>) -> bool {
    kind == "function"@ || kind == "method"@
}

fn is_function_or_method(kind: &str) -> (r: bool)
    ensures
        r == is_function_kind(kind@),
{
    text::same(kind, "function") || text::same(kind, "method")
}

/// The number of lines of a symbol.
pub open spec fn line_count(symbol: ParseSymbolRecordView) -> int {
    symbol.end_line - symbol.start_line + 1
}

/// Whether a symbol is large.
pub open spec fn is_large(symbol: ParseSymbolRecordView) -> bool {
    line_count(symbol) >= LARGE_SYMBOL_LINE_THRESHOLD
}

/// Whether every symbol ends where it starts or later, and its lines can be counted.
pub open spec fn lines_are_countable(symbols: Seq<ParseSymbolRecordView>) -> bool {
    forall|i: int|
        0 <= i < symbols.len() ==> 0 < #[trigger] line_count(symbols[i]) <= u64::MAX
}

/// The larger of two numbers, of which either may be missing.
pub open spec fn larger_of(a: Option<u64>, b: Option<u64>) -> Option<u64> {
    match (a, b) {
        (Some(x), Some(y)) => if x > y {
            Some(x)
        } else {
            Some(y)
        },
        (Some(x), None) => Some(x),
        (None, _) => b,
    }
}

fn max_option(left: Option<u64>, right: Option<u64>) -> (out: Option<u64>)
    ensures
        out == larger_of(left, right),
{
    match (left, right) {
        (Some(x), Some(y)) => if x > y {
            Some(x)
        } else {
            Some(y)
        },
        (Some(x), None) => Some(x),
        (None, _) => right,
    }
}

/// What the symbols of one file come to.
#[verifier::ext_equal]
pub struct TallyView {
    pub functions: nat,
    pub large: nat,
    pub cyclomatic: Option<u64>,
    pub nesting: Option<u64>,
}

/// What those of `symbols` come to that `path` declares.
pub open spec fn tally(symbols: Seq<ParseSymbolRecordView>, path: Seq<char>) -> TallyView
    decreases symbols.len(),
{
    if symbols.len() == 0 {
        TallyView { functions: 0, large: 0, cyclomatic: None, nesting: None }
    } else {
        let before = tally(symbols.drop_last(), path);
        let symbol = symbols.last();
        if symbol.path != path {
            before
        } else {
            let function = is_function_kind(symbol.kind);
            TallyView {
                functions: before.functions + if function {
                    1nat
                } else {
                    0
                },
                large: before.large + if is_large(symbol) {
                    1nat
                } else {
                    0
                },
                cyclomatic: if function {
                    larger_of(before.cyclomatic, symbol.cyclomatic_complexity)
                } else {
                    before.cyclomatic
                },
                nesting: if function {
                    larger_of(before.nesting, symbol.max_control_flow_nesting)
                } else {
                    before.nesting
                },
            }
        }
    }
}

/// Where a path stands last among files.
pub open spec fn position_of(files: Seq<ParseFileRecordView>, path: Seq<char>) -> Option<int>
    decreases files.len(),
{
    if files.len() == 0 {
        None
    } else if files.last().path == path {
        Some(files.len() - 1)
    } else {
        position_of(files.drop_last(), path)
    }
}

proof fn position_holds_path(files: Seq<ParseFileRecordView>, path: Seq<char>)
    ensures
        position_of(files, path) matches Some(i) ==> 0 <= i < files.len() && files[i].path == path,
    decreases files.len(),
{
    if files.len() > 0 && files.last().path != path {
        position_holds_path(files.drop_last(), path);
    }
}

proof fn path_has_position(files: Seq<ParseFileRecordView>, i: int)
    requires
        0 <= i < files.len(),
    ensures
        position_of(files, files[i].path) is Some,
    decreases files.len(),
{
    if i < files.len() - 1 {
        assert(files.drop_last()[i] == files[i]);
        path_has_position(files.drop_last(), i);
    }
}

/// What the symbols of file `i` come to: where a path occurs more than once, the last
/// file of that path has them.
pub open spec fn tally_at(
    files: Seq<ParseFileRecordView>,
    i: int,
    symbols: Seq<ParseSymbolRecordView>,
) -> TallyView {
    if position_of(files, files[i].path) == Some(i) {
        tally(symbols, files[i].path)
    } else {
        TallyView { functions: 0, large: 0, cyclomatic: None, nesting: None }
    }
}

/// How complex file `i` is.
pub open spec fn file_complexity(
    report: ParseReportView,
    edges: Seq<ResolvedDependencyEdgeView>,
    i: int,
) -> ComplexityFileRecordView {
    let file = report.files[i];
    let own = tally_at(report.files, i, report.symbols);
    ComplexityFileRecordView {
        path: file.path,
        language: file.language,
        status: file.status,
        symbol_count: file.symbol_count,
        function_method_count: own.functions as u64,
        large_symbol_count: own.large as u64,
        max_cyclomatic_complexity: own.cyclomatic,
        max_nesting_depth: own.nesting,
        fan_in: fan::fan_of(edges, file.path).fan_in,
        fan_out: fan::fan_of(edges, file.path).fan_out,
    }
}

/// How complex a symbol is.
pub open spec fn symbol_complexity(symbol: ParseSymbolRecordView) -> ComplexitySymbolRecordView {
    ComplexitySymbolRecordView {
        path: symbol.path,
        name: symbol.name,
        kind: symbol.kind,
        start_line: symbol.start_line,
        end_line: symbol.end_line,
        length_lines: line_count(symbol) as u64,
        function_length_lines: if is_function_kind(symbol.kind) {
            Some(line_count(symbol) as u64)
        } else {
            None
        },
        nesting_depth: symbol.nesting_depth,
        cyclomatic_complexity: symbol.cyclomatic_complexity,
        max_control_flow_nesting: symbol.max_control_flow_nesting,
        is_large_symbol: is_large(symbol),
    }
}

/// How many functions and methods there are.
pub open spec fn function_count(symbols: Seq<ParseSymbolRecordView>) -> nat
    decreases symbols.len(),
{
    if symbols.len() == 0 {
        0
    } else {
        function_count(symbols.drop_last()) + if is_function_kind(symbols.last().kind) {
            1nat
        } else {
            0
        }
    }
}

/// How many large symbols there are.
pub open spec fn large_count(symbols: Seq<ParseSymbolRecordView>) -> nat
    decreases symbols.len(),
{
    if symbols.len() == 0 {
        0
    } else {
        large_count(symbols.drop_last()) + if is_large(symbols.last()) {
            1nat
        } else {
            0
        }
    }
}

/// The largest cyclomatic complexity of any symbol.
pub open spec fn largest_cyclomatic(symbols: Seq<ParseSymbolRecordView>) -> Option<u64>
    decreases symbols.len(),
{
    if symbols.len() == 0 {
        None
    } else {
        larger_of(
            largest_cyclomatic(symbols.drop_last()),
            symbols.last().cyclomatic_complexity,
        )
    }
}

/// The deepest control flow of any symbol.
pub open spec fn deepest_nesting(symbols: Seq<ParseSymbolRecordView>) -> Option<u64>
    decreases symbols.len(),
{
    if symbols.len() == 0 {
        None
    } else {
        larger_of(
            deepest_nesting(symbols.drop_last()),
            symbols.last().max_control_flow_nesting,
        )
    }
}

/// A number, or zero where it is missing.
pub open spec fn or_zero(n: Option<u64>) -> u64 {
    match n {
        Some(n) => n,
        None => 0,
    }
}

fn unwrap_or_zero(n: Option<u64>) -> (out: u64)
    ensures
        out == or_zero(n),
{
    match n {
        Some(n) => n,
        None => 0,
    }
}

/// How complex what a parse reports is.
pub open spec fn complexity_of(report: ParseReportView) -> ComplexityReportView {
    let edges = dependency::dependencies(report);
    let paths = table::listing(fan::mentioned(report.files, edges));
    let totals = report::summary_of(report);
    ComplexityReportView {
        summary: ComplexitySummary {
            total_files: totals.total_files,
            parsed_files: totals.parsed_files,
            symbol_count: totals.symbol_count,
            function_method_count: function_count(report.symbols) as u64,
            large_symbol_count: large_count(report.symbols) as u64,
            max_cyclomatic_complexity: or_zero(largest_cyclomatic(report.symbols)),
            max_nesting_depth: or_zero(deepest_nesting(report.symbols)),
            dependency_edge_count: edges.len() as u64,
            max_fan_in: fan::largest_fan_in(edges, paths),
            max_fan_out: fan::largest_fan_out(edges, paths),
        },
        files: Seq::new(report.files.len(), |i: int| file_complexity(report, edges, i)),
        symbols: Seq::new(report.symbols.len(), |i: int| symbol_complexity(report.symbols[i])),
    }
}

/// What the symbols of one file come to.
pub struct Tally {
    pub functions: u64,
    pub large: u64,
    pub cyclomatic: Option<u64>,
    pub nesting: Option<u64>,
}

impl DeepView for Tally {
    type V = TallyView;

    open spec fn deep_view(&self) -> TallyView {
        TallyView {
            functions: self.functions as nat,
            large: self.large as nat,
            cyclomatic: self.cyclomatic,
            nesting: self.nesting,
        }
    }
}

proof fn tally_is_bounded(symbols: Seq<ParseSymbolRecordView>, path: Seq<char>)
    ensures
        tally(symbols, path).functions <= symbols.len(),
        tally(symbols, path).large <= symbols.len(),
    decreases symbols.len(),
{
    if symbols.len() > 0 {
        tally_is_bounded(symbols.drop_last(), path);
    }
}

fn file_positions(files: &Vec<ParseFileRecord>) -> (out: TextMap<usize>)
    ensures
        out.wf(),
        forall|path: Seq<char>| #[trigger]
            out@.dom().contains(path) <==> position_of(files.deep_view(), path) is Some,
        forall|path: Seq<char>| #[trigger]
            out@.dom().contains(path) ==> position_of(files.deep_view(), path) == Some(
                out@[path] as int,
            ),
{
    let ghost all = files.deep_view();
    let mut out: TextMap<usize> = TextMap::new();
    let mut i: usize = 0;
    while i < files.len()
        invariant
            i <= files.len(),
            all == files.deep_view(),
            out.wf(),
            forall|path: Seq<char>| #[trigger]
                out@.dom().contains(path) <==> position_of(all.take(i as int), path) is Some,
            forall|path: Seq<char>| #[trigger]
                out@.dom().contains(path) ==> position_of(all.take(i as int), path) == Some(
                    out@[path] as int,
                ),
        decreases files.len() - i,
    {
        let ghost before = out@;
        assert(all.take(i + 1).drop_last() =~= all.take(i as int));
        assert(all.take(i + 1).last() == files@[i as int].deep_view());
        out.insert(files[i].path.as_str(), i);
        proof {
            assert forall|path: Seq<char>| #[trigger] out@.dom().contains(path) <==> position_of(
                all.take(i + 1),
                path,
            ) is Some by {
                assert(before.dom().contains(path) <==> position_of(
                    all.take(i as int),
                    path,
                ) is Some);
            }
            assert forall|path: Seq<char>| #[trigger]
                out@.dom().contains(path) implies position_of(all.take(i + 1), path) == Some(
                out@[path] as int,
            ) by {
                if path != files@[i as int].path@ {
                    assert(before.dom().contains(path));
                }
            }
        }
        i = i + 1;
    }
    assert(all.take(i as int) =~= all);
    out
}

fn add_symbol(own: &mut Tally, symbol: &ParseSymbolRecord, Ghost(earlier): Ghost<
    Seq<ParseSymbolRecordView>,
>)
    requires
        0 < line_count(symbol.deep_view()) <= u64::MAX,
        earlier.len() < u64::MAX,
        old(own).deep_view() == tally(earlier, symbol.deep_view().path),
    ensures
        final(own).deep_view() == tally(
            earlier.push(symbol.deep_view()),
            symbol.deep_view().path,
        ),
{
    proof {
        tally_is_bounded(earlier, symbol.deep_view().path);
        assert(earlier.push(symbol.deep_view()).drop_last() =~= earlier);
    }
    if symbol.end_line - symbol.start_line + 1 >= LARGE_SYMBOL_LINE_THRESHOLD {
        own.large = own.large + 1;
    }
    if is_function_or_method(symbol.kind.as_str()) {
        own.functions = own.functions + 1;
        own.cyclomatic = max_option(own.cyclomatic, symbol.cyclomatic_complexity);
        own.nesting = max_option(own.nesting, symbol.max_control_flow_nesting);
    }
}

/// What the symbols of each file come to.
fn tallies_of(report: &ParseReport) -> (out: Vec<Tally>)
    requires
        lines_are_countable(report.deep_view().symbols),
    ensures
        out.len() == report.files.len(),
        forall|j: int|
            0 <= j < out.len() ==> (#[trigger] out@[j]).deep_view() == tally_at(
                report.deep_view().files,
                j,
                report.deep_view().symbols,
            ),
{
    let ghost files = report.files.deep_view();
    let ghost symbols = report.symbols.deep_view();
    let positions = file_positions(&report.files);
    let mut out: Vec<Tally> = Vec::new();
    let mut i: usize = 0;
    while i < report.files.len()
        invariant
            i <= report.files.len(),
            out.len() == i,
            forall|j: int|
                0 <= j < i ==> (#[trigger] out@[j]).deep_view() == tally_at(
                    files,
                    j,
                    symbols.take(0),
                ),
        decreases report.files.len() - i,
    {
        out.push(Tally { functions: 0, large: 0, cyclomatic: None, nesting: None });
        i = i + 1;
    }
    let mut k: usize = 0;
    while k < report.symbols.len()
        invariant
            k <= report.symbols.len(),
            files == report.files.deep_view(),
            symbols == report.symbols.deep_view(),
            lines_are_countable(symbols),
            out.len() == files.len(),
            positions.wf(),
            forall|path: Seq<char>| #[trigger]
                positions@.dom().contains(path) <==> position_of(files, path) is Some,
            forall|path: Seq<char>| #[trigger]
                positions@.dom().contains(path) ==> position_of(files, path) == Some(
                    positions@[path] as int,
                ),
            forall|j: int|
                0 <= j < out.len() ==> (#[trigger] out@[j]).deep_view() == tally_at(
                    files,
                    j,
                    symbols.take(k as int),
                ),
        decreases report.symbols.len() - k,
    {
        let symbol = &report.symbols[k];
        let ghost earlier = symbols.take(k as int);
        let ghost later = symbols.take(k + 1);
        let ghost before = out@;
        let ghost path = symbol.path@;
        proof {
            assert(symbols[k as int] == symbol.deep_view());
            assert(0 < line_count(symbols[k as int]) <= u64::MAX);
            assert(later =~= earlier.push(symbol.deep_view()));
            assert(later.drop_last() =~= earlier);
            position_holds_path(files, path);
        }
        if let Some(at) = positions.get(symbol.path.as_str()) {
            let at: usize = *at;
            add_symbol(&mut out[at], symbol, Ghost(earlier));
        }
        proof {
            assert forall|j: int| 0 <= j < out.len() implies (#[trigger] out@[j]).deep_view()
                == tally_at(files, j, later) by {
                path_has_position(files, j);
                assert(before[j].deep_view() == tally_at(files, j, earlier));
                if files[j].path == path && position_of(files, path) == Some(j) {
                    assert(positions@.dom().contains(path));
                }
            }
        }
        k = k + 1;
    }
    assert(symbols.take(k as int) =~= symbols);
    out
}

fn symbol_record(symbol: &ParseSymbolRecord) -> (out: ComplexitySymbolRecord)
    requires
        0 < line_count(symbol.deep_view()) <= u64::MAX,
    ensures
        out.deep_view() == symbol_complexity(symbol.deep_view()),
{
    let length_lines: u64 = symbol.end_line - symbol.start_line + 1;
    let function_length_lines: Option<u64> = if is_function_or_method(symbol.kind.as_str()) {
        Some(length_lines)
    } else {
        None
    };
    ComplexitySymbolRecord {
        path: symbol.path.clone(),
        name: symbol.name.clone(),
        kind: symbol.kind.clone(),
        start_line: symbol.start_line,
        end_line: symbol.end_line,
        length_lines,
        function_length_lines,
        nesting_depth: symbol.nesting_depth,
        cyclomatic_complexity: symbol.cyclomatic_complexity,
        max_control_flow_nesting: symbol.max_control_flow_nesting,
        is_large_symbol: length_lines >= LARGE_SYMBOL_LINE_THRESHOLD,
    }
}

/// How complex what a parse reports is.
pub fn report_from_parse(report: &ParseReport) -> (out: ComplexityReport)
    requires
        lines_are_countable(report.deep_view().symbols),
    ensures
        out.deep_view() == complexity_of(report.deep_view()),
{
    let ghost whole = report.deep_view();
    let ghost expected = complexity_of(whole);
    let totals = report.summary();
    let edges = dependency::resolve_dependencies(report);
    let ghost joins = edges.deep_view();
    let metrics = fan::fan_metrics(&report.files, &edges);
    let tallies = tallies_of(report);
    let mut files: Vec<ComplexityFileRecord> = Vec::new();
    let mut i: usize = 0;
    assert(files.deep_view() =~= expected.files.take(0));
    while i < report.files.len()
        invariant
            i <= report.files.len(),
            whole == report.deep_view(),
            expected == complexity_of(whole),
            joins == dependency::dependencies(whole),
            fan::are_metrics_of(metrics, whole.files, joins),
            tallies.len() == report.files.len(),
            forall|j: int|
                0 <= j < tallies.len() ==> (#[trigger] tallies@[j]).deep_view() == tally_at(
                    whole.files,
                    j,
                    whole.symbols,
                ),
            files.deep_view() == expected.files.take(i as int),
        decreases report.files.len() - i,
    {
        let file = &report.files[i];
        let own = &tallies[i];
        let ghost before = files.deep_view();
        proof {
            assert(whole.files[i as int] == file.deep_view());
            assert(tallies@[i as int].deep_view() == tally_at(
                whole.files,
                i as int,
                whole.symbols,
            ));
            file_is_mentioned(whole.files, joins, i as int);
        }
        let fan = match metrics.by_path.get(file.path.as_str()) {
            Some(fan) => *fan,
            None => FileDependencyFan::default(),
        };
        let record = ComplexityFileRecord {
            path: file.path.clone(),
            language: file.language,
            status: file.status,
            symbol_count: file.symbol_count,
            function_method_count: own.functions,
            large_symbol_count: own.large,
            max_cyclomatic_complexity: own.cyclomatic,
            max_nesting_depth: own.nesting,
            fan_in: fan.fan_in,
            fan_out: fan.fan_out,
        };
        assert(record.deep_view() == file_complexity(whole, joins, i as int));
        files.push(record);
        assert(files.deep_view() =~= before.push(record.deep_view()));
        i = i + 1;
        assert(files.deep_view() =~= expected.files.take(i as int));
    }
    assert(expected.files.take(i as int) =~= expected.files);
    let mut symbols: Vec<ComplexitySymbolRecord> = Vec::new();
    let mut functions: u64 = 0;
    let mut large: u64 = 0;
    let mut cyclomatic: Option<u64> = None;
    let mut nesting: Option<u64> = None;
    let mut k: usize = 0;
    assert(symbols.deep_view() =~= expected.symbols.take(0));
    while k < report.symbols.len()
        invariant
            k <= report.symbols.len(),
            whole == report.deep_view(),
            expected == complexity_of(whole),
            lines_are_countable(whole.symbols),
            symbols.deep_view() == expected.symbols.take(k as int),
            functions == function_count(whole.symbols.take(k as int)),
            large == large_count(whole.symbols.take(k as int)),
            cyclomatic == largest_cyclomatic(whole.symbols.take(k as int)),
            nesting == deepest_nesting(whole.symbols.take(k as int)),
            functions <= k,
            large <= k,
        decreases report.symbols.len() - k,
    {
        let symbol = &report.symbols[k];
        let ghost before = symbols.deep_view();
        let ghost all = whole.symbols;
        proof {
            assert(all[k as int] == symbol.deep_view());
            assert(0 < line_count(all[k as int]) <= u64::MAX);
            assert(all.take(k + 1).drop_last() =~= all.take(k as int));
            assert(all.take(k + 1).last() == symbol.deep_view());
        }
        let record = symbol_record(symbol);
        if record.function_length_lines.is_some() {
            functions = functions + 1;
        }
        if record.is_large_symbol {
            large = large + 1;
        }
        cyclomatic = max_option(cyclomatic, record.cyclomatic_complexity);
        nesting = max_option(nesting, record.max_control_flow_nesting);
        symbols.push(record);
        assert(symbols.deep_view() =~= before.push(record.deep_view()));
        k = k + 1;
        assert(symbols.deep_view() =~= expected.symbols.take(k as int));
    }
    assert(expected.symbols.take(k as int) =~= expected.symbols);
    assert(whole.symbols.take(k as int) =~= whole.symbols);
    ComplexityReport {
        summary: ComplexitySummary {
            total_files: totals.total_files,
            parsed_files: totals.parsed_files,
            symbol_count: totals.symbol_count,
            function_method_count: functions,
            large_symbol_count: large,
            max_cyclomatic_complexity: unwrap_or_zero(cyclomatic),
            max_nesting_depth: unwrap_or_zero(nesting),
            dependency_edge_count: metrics.dependency_edge_count,
            max_fan_in: metrics.max_fan_in,
            max_fan_out: metrics.max_fan_out,
        },
        files,
        symbols,
    }
}

proof fn file_is_listed(files: Seq<ParseFileRecordView>, i: int)
    requires
        0 <= i < files.len(),
    ensures
        fan::file_paths(files).contains(files[i].path),
    decreases files.len(),
{
    if i < files.len() - 1 {
        assert(files.drop_last()[i] == files[i]);
        file_is_listed(files.drop_last(), i);
    }
}

pub proof fn file_is_mentioned(
    files: Seq<ParseFileRecordView>,
    edges: Seq<ResolvedDependencyEdgeView>,
    i: int,
)
    requires
        0 <= i < files.len(),
    ensures
        fan::mentioned(files, edges).contains(files[i].path),
    decreases edges.len(),
{
    if edges.len() == 0 {
        file_is_listed(files, i);
    } else {
        file_is_mentioned(files, edges.drop_last(), i);
    }
}

/// A function or method by its rank.
pub open spec fn ranked_symbol(symbol: ComplexitySymbolRecordView) -> RankedSymbolView {
    RankedSymbolView {
        cyclomatic_complexity: or_zero(symbol.cyclomatic_complexity),
        max_control_flow_nesting: or_zero(symbol.max_control_flow_nesting),
        length_lines: match symbol.function_length_lines {
            Some(n) => n,
            None => symbol.length_lines,
        },
        path: symbol.path,
        start_line: symbol.start_line,
        kind: symbol.kind,
        name: symbol.name,
    }
}

/// The functions and methods, in the order in which they stand.
pub open spec fn functions_of(symbols: Seq<ComplexitySymbolRecordView>) -> Seq<RankedSymbolView>
    decreases symbols.len(),
{
    if symbols.len() == 0 {
        Seq::empty()
    } else if symbols.last().function_length_lines is Some {
        functions_of(symbols.drop_last()).push(ranked_symbol(symbols.last()))
    } else {
        functions_of(symbols.drop_last())
    }
}

/// The functions and methods by rank.
pub open spec fn ranking(symbols: Seq<ComplexitySymbolRecordView>) -> Seq<RankedSymbolView> {
    order::sorted_by(functions_of(symbols), order::by_key::<RankedSymbol>())
}

/// The functions and methods by rank.
pub fn ranked_function_symbols(symbols: &Vec<ComplexitySymbolRecord>) -> (out: Vec<RankedSymbol>)
    ensures
        out.deep_view() == ranking(symbols.deep_view()),
{
    let ghost all = symbols.deep_view();
    let mut ranked: Vec<RankedSymbol> = Vec::new();
    let mut i: usize = 0;
    assert(ranked.deep_view() =~= functions_of(all.take(0)));
    while i < symbols.len()
        invariant
            i <= symbols.len(),
            all == symbols.deep_view(),
            ranked.deep_view() == functions_of(all.take(i as int)),
        decreases symbols.len() - i,
    {
        let symbol = &symbols[i];
        assert(all.take(i + 1).drop_last() =~= all.take(i as int));
        assert(all.take(i + 1).last() == symbol.deep_view());
        if let Some(length_lines) = symbol.function_length_lines {
            let ghost before = ranked.deep_view();
            let entry = RankedSymbol {
                cyclomatic_complexity: unwrap_or_zero(symbol.cyclomatic_complexity),
                max_control_flow_nesting: unwrap_or_zero(symbol.max_control_flow_nesting),
                length_lines,
                path: symbol.path.clone(),
                start_line: symbol.start_line,
                kind: symbol.kind.clone(),
                name: symbol.name.clone(),
            };
            ranked.push(entry);
            assert(ranked.deep_view() =~= before.push(entry.deep_view()));
        }
        i = i + 1;
    }
    assert(all.take(i as int) =~= all);
    order::sort(ranked)
}

/// The lines of a ranking.
pub open spec fn rank_lines(out: Seq<char>, ranked: Seq<RankedSymbolView>) -> Seq<char>
    decreases ranked.len(),
{
    if ranked.len() == 0 {
        out
    } else {
        let symbol = ranked.last();
        rank_lines(out, ranked.drop_last())
            + "\n"@ + text::aligned(numbers::decimal(ranked.len()), 4)
            + "  "@ + text::aligned(numbers::decimal(symbol.cyclomatic_complexity as nat), 5)
            + "  "@ + text::aligned(numbers::decimal(symbol.max_control_flow_nesting as nat), 7)
            + "  "@ + text::aligned(numbers::decimal(symbol.length_lines as nat), 5)
            + "  "@ + symbol.path + ":"@ + numbers::decimal(symbol.start_line as nat)
            + "  "@ + symbol.kind + "  "@ + symbol.name
    }
}

/// The summary of a report on complexity: its totals, and the most complex functions and
/// methods.
pub open spec fn summary_text(report: ComplexityReportView) -> Seq<char> {
    let summary = report.summary;
    let totals = "Hotpath complexity summary"@
        + "\ntotal files        "@ + numbers::decimal(summary.total_files as nat)
        + "\nparsed files       "@ + numbers::decimal(summary.parsed_files as nat)
        + "\nsymbols            "@ + numbers::decimal(summary.symbol_count as nat)
        + "\nfunctions/methods  "@ + numbers::decimal(summary.function_method_count as nat)
        + "\nlarge symbols      "@ + numbers::decimal(summary.large_symbol_count as nat)
        + "\nmax cyclomatic     "@ + numbers::decimal(summary.max_cyclomatic_complexity as nat)
        + "\nmax nesting        "@ + numbers::decimal(summary.max_nesting_depth as nat)
        + "\ndependency edges   "@ + numbers::decimal(summary.dependency_edge_count as nat)
        + "\nmax fan-in         "@ + numbers::decimal(summary.max_fan_in as nat)
        + "\nmax fan-out        "@ + numbers::decimal(summary.max_fan_out as nat);
    let head = totals + "\n\nmost complex function/method symbols"@
        + "\nrank  cyclo  nesting  lines  location  kind  name"@;
    let ranked = ranking(report.symbols);
    if ranked.len() == 0 {
        head + "\n  none"@
    } else if ranked.len() > DEFAULT_RANKED_SYMBOL_LIMIT {
        rank_lines(head, ranked.take(DEFAULT_RANKED_SYMBOL_LIMIT as int))
    } else {
        rank_lines(head, ranked)
    }
}

fn push_aligned_number(out: &mut String, n: u64, width: usize)
    ensures
        final(out)@ == old(out)@ + text::aligned(numbers::decimal(n as nat), width as nat),
{
    let digits = numbers::decimal_text(n);
    text::push_aligned(out, digits.as_str(), width);
}

/// Renders the summary of a report on complexity.
pub fn render_summary(report: &ComplexityReport) -> (output: String)
    ensures
        output@ == summary_text(report.deep_view()),
{
    let summary = report.summary;
    let mut text = "Hotpath complexity summary".to_owned();
    let out = &mut text;
    out.append("\ntotal files        ");
    numbers::push_decimal(out, summary.total_files);
    out.append("\nparsed files       ");
    numbers::push_decimal(out, summary.parsed_files);
    out.append("\nsymbols            ");
    numbers::push_decimal(out, summary.symbol_count);
    out.append("\nfunctions/methods  ");
    numbers::push_decimal(out, summary.function_method_count);
    out.append("\nlarge symbols      ");
    numbers::push_decimal(out, summary.large_symbol_count);
    out.append("\nmax cyclomatic     ");
    numbers::push_decimal(out, summary.max_cyclomatic_complexity);
    out.append("\nmax nesting        ");
    numbers::push_decimal(out, summary.max_nesting_depth);
    out.append("\ndependency edges   ");
    numbers::push_decimal(out, summary.dependency_edge_count);
    out.append("\nmax fan-in         ");
    numbers::push_decimal(out, summary.max_fan_in);
    out.append("\nmax fan-out        ");
    numbers::push_decimal(out, summary.max_fan_out);
    out.append("\n\nmost complex function/method symbols");
    out.append("\nrank  cyclo  nesting  lines  location  kind  name");
    let ranked = ranked_function_symbols(&report.symbols);
    let ghost all = ranked.deep_view();
    if ranked.len() == 0 {
        out.append("\n  none");
        return text;
    }
    let ghost start = out@;
    let mut i: usize = 0;
    while i < ranked.len() && i < DEFAULT_RANKED_SYMBOL_LIMIT
        invariant
            i <= ranked.len(),
            i <= DEFAULT_RANKED_SYMBOL_LIMIT,
            all == ranked.deep_view(),
            out@ == rank_lines(start, all.take(i as int)),
        decreases ranked.len() - i,
    {
        let symbol = &ranked[i];
        assert(all.take(i + 1).drop_last() =~= all.take(i as int));
        assert(all.take(i + 1).last() == symbol.deep_view());
        out.append("\n");
        push_aligned_number(out, i as u64 + 1, 4);
        out.append("  ");
        push_aligned_number(out, symbol.cyclomatic_complexity, 5);
        out.append("  ");
        push_aligned_number(out, symbol.max_control_flow_nesting, 7);
        out.append("  ");
        push_aligned_number(out, symbol.length_lines, 5);
        out.append("  ");
        out.append(symbol.path.as_str());
        out.append(":");
        numbers::push_decimal(out, symbol.start_line);
        out.append("  ");
        out.append(symbol.kind.as_str());
        out.append("  ");
        out.append(symbol.name.as_str());
        i = i + 1;
    }
    assert(all.take(all.len() as int) =~= all);
    text
}

/// Renders a summary of how complex what a parse reports is.
pub fn complexity_summary(report: &ParseReport) -> (output: String)
    requires
        lines_are_countable(report.deep_view().symbols),
    ensures
        output@ == summary_text(complexity_of(report.deep_view())),
{
    render_summary(&report_from_parse(report))
}

/// How many functions and methods the files of a report have together.
pub open spec fn counted_functions(files: Seq<ParseFileRecordView>, symbols: Seq<ParseSymbolRecordView>) -> nat
    decreases files.len(),
{
    if files.len() == 0 {
        0
    } else {
        counted_functions(files.drop_last(), symbols) + tally(symbols, files.last().path).functions
    }
}

proof fn one_more_function(files: Seq<ParseFileRecordView>, symbols: Seq<ParseSymbolRecordView>)
    requires
        symbols.len() > 0,
        forall|i: int, j: int|
            0 <= i < j < files.len() ==> (#[trigger] files[i]).path != (#[trigger] files[j]).path,
    ensures
        counted_functions(files, symbols) == counted_functions(files, symbols.drop_last()) + if (
        exists|i: int| 0 <= i < files.len() && (#[trigger] files[i]).path == symbols.last().path)
            && is_function_kind(symbols.last().kind) {
            1int
        } else {
            0
        },
    decreases files.len(),
{
    let path = symbols.last().path;
    if files.len() > 0 {
        let fewer = files.drop_last();
        assert forall|i: int, j: int| 0 <= i < j < fewer.len() implies (#[trigger] fewer[i]).path
            != (#[trigger] fewer[j]).path by {
            assert(files[i].path != files[j].path);
        }
        one_more_function(fewer, symbols);
        if files.last().path == path {
            assert(files[files.len() - 1].path == path);
            assert forall|i: int| 0 <= i < fewer.len() implies (#[trigger] fewer[i]).path
                != path by {
                assert(files[i].path != files[files.len() - 1].path);
            }
        } else {
            if exists|i: int| 0 <= i < files.len() && (#[trigger] files[i]).path == path {
                let i = choose|i: int| 0 <= i < files.len() && (#[trigger] files[i]).path == path;
                assert(fewer[i].path == path);
            }
            if exists|i: int| 0 <= i < fewer.len() && (#[trigger] fewer[i]).path == path {
                let i = choose|i: int| 0 <= i < fewer.len() && (#[trigger] fewer[i]).path == path;
                assert(files[i].path == path);
            }
        }
    }
}

proof fn no_symbols_no_functions(files: Seq<ParseFileRecordView>)
    ensures
        counted_functions(files, Seq::empty()) == 0,
    decreases files.len(),
{
    if files.len() > 0 {
        no_symbols_no_functions(files.drop_last());
    }
}

/// Where no path occurs twice and every symbol belongs to a file, the functions and
/// methods of the files add up to all there are.
pub proof fn file_functions_add_up(
    files: Seq<ParseFileRecordView>,
    symbols: Seq<ParseSymbolRecordView>,
)
    requires
        forall|i: int, j: int|
            0 <= i < j < files.len() ==> (#[trigger] files[i]).path != (#[trigger] files[j]).path,
        forall|k: int|
            0 <= k < symbols.len() ==> exists|i: int|
                0 <= i < files.len() && (#[trigger] files[i]).path == (#[trigger] symbols[k]).path,
    ensures
        counted_functions(files, symbols) == function_count(symbols),
    decreases symbols.len(),
{
    if symbols.len() == 0 {
        assert(symbols =~= Seq::empty());
        no_symbols_no_functions(files);
    } else {
        let fewer = symbols.drop_last();
        assert forall|k: int| 0 <= k < fewer.len() implies exists|i: int|
            0 <= i < files.len() && (#[trigger] files[i]).path == (#[trigger] fewer[k]).path by {
            assert(symbols[k] == fewer[k]);
        }
        assert(symbols[symbols.len() - 1] == symbols.last());
        file_functions_add_up(files, fewer);
        one_more_function(files, symbols);
    }
}

} // verus!
