//! What holds of every report on complexity.

use vstd::prelude::*;

use crate::complexity;
use crate::complexity::{ComplexitySymbolRecordView, RankedSymbol, RankedSymbolView};
use crate::dependency;
use crate::dependency::fan;
use crate::dependency::ResolvedDependencyEdgeView;
use crate::order;
use crate::parse::{ParseFileRecordView, ParseReportView, ParseSymbolRecordView};
use crate::table;

verus! {

/// Whether a kind of symbol can be called.
pub open spec fn is_called(kind: Seq<char>) -> bool {
    kind == "method"@ || kind == "function"@
}

/// The places of the functions and methods of a file.
pub open spec fn functions_in(symbols: Seq<ParseSymbolRecordView>, path: Seq<char>) -> Set<int> {
    Set::new(
        |j: int| 0 <= j < symbols.len() && symbols[j].path == path && is_called(symbols[j].kind),
    )
}

/// The places of the symbols of a file that take eighty lines or more.
pub open spec fn long_symbols_in(symbols: Seq<ParseSymbolRecordView>, path: Seq<char>) -> Set<int> {
    Set::new(
        |j: int|
            0 <= j < symbols.len() && symbols[j].path == path && symbols[j].start_line + 79
                <= symbols[j].end_line,
    )
}

/// The places of all functions and methods.
pub open spec fn all_functions(symbols: Seq<ParseSymbolRecordView>) -> Set<int> {
    Set::new(|j: int| 0 <= j < symbols.len() && is_called(symbols[j].kind))
}

/// The places of all symbols that take eighty lines or more.
pub open spec fn all_long_symbols(symbols: Seq<ParseSymbolRecordView>) -> Set<int> {
    Set::new(|j: int| 0 <= j < symbols.len() && symbols[j].start_line + 79 <= symbols[j].end_line)
}

/// A symbol is as long as the lines from its first to its last; only that of a function or method
/// is the length of a function. It is large from eighty lines on.
pub proof fn symbols_are_as_long_as_their_lines(report: ParseReportView, i: int)
    requires
        0 <= i < report.symbols.len(),
        report.symbols[i].start_line <= report.symbols[i].end_line < u64::MAX,
    ensures
        complexity::complexity_of(report).symbols.len() == report.symbols.len(),
        ({
            let symbol = report.symbols[i];
            let row = complexity::complexity_of(report).symbols[i];
            &&& row.start_line + row.length_lines == symbol.end_line + 1
            &&& row.start_line == symbol.start_line
            &&& row.end_line == symbol.end_line
            &&& row.path == symbol.path
            &&& row.name == symbol.name
            &&& row.kind == symbol.kind
            &&& row.nesting_depth == symbol.nesting_depth
            &&& row.cyclomatic_complexity == symbol.cyclomatic_complexity
            &&& row.max_control_flow_nesting == symbol.max_control_flow_nesting
            &&& row.is_large_symbol == (symbol.start_line + 80 <= symbol.end_line + 1)
            &&& is_called(symbol.kind) ==> row.function_length_lines == Some(row.length_lines)
            &&& !is_called(symbol.kind) ==> row.function_length_lines is None
        }),
{
}

proof fn file_counts(symbols: Seq<ParseSymbolRecordView>, path: Seq<char>)
    ensures
        functions_in(symbols, path).finite(),
        long_symbols_in(symbols, path).finite(),
        functions_in(symbols, path).len() == complexity::tally(symbols, path).functions,
        long_symbols_in(symbols, path).len() == complexity::tally(symbols, path).large,
        functions_in(symbols, path).len() <= symbols.len(),
        long_symbols_in(symbols, path).len() <= symbols.len(),
    decreases symbols.len(),
{
    let here = functions_in(symbols, path);
    let long = long_symbols_in(symbols, path);
    if symbols.len() == 0 {
        assert(here =~= Set::empty());
        assert(long =~= Set::empty());
    } else {
        let front = symbols.drop_last();
        let last = symbols.len() - 1;
        file_counts(front, path);
        let before = functions_in(front, path);
        let long_before = long_symbols_in(front, path);
        assert(!before.contains(last) && !long_before.contains(last));
        if here.contains(last) {
            assert(here =~= before.insert(last));
        } else {
            assert(here =~= before);
        }
        if long.contains(last) {
            assert(long =~= long_before.insert(last));
        } else {
            assert(long =~= long_before);
        }
    }
}

proof fn total_counts(symbols: Seq<ParseSymbolRecordView>)
    ensures
        all_functions(symbols).finite(),
        all_long_symbols(symbols).finite(),
        all_functions(symbols).len() == complexity::function_count(symbols),
        all_long_symbols(symbols).len() == complexity::large_count(symbols),
        all_functions(symbols).len() <= symbols.len(),
        all_long_symbols(symbols).len() <= symbols.len(),
    decreases symbols.len(),
{
    let here = all_functions(symbols);
    let long = all_long_symbols(symbols);
    if symbols.len() == 0 {
        assert(here =~= Set::empty());
        assert(long =~= Set::empty());
    } else {
        let front = symbols.drop_last();
        let last = symbols.len() - 1;
        total_counts(front);
        let before = all_functions(front);
        let long_before = all_long_symbols(front);
        assert(!before.contains(last) && !long_before.contains(last));
        if here.contains(last) {
            assert(here =~= before.insert(last));
        } else {
            assert(here =~= before);
        }
        if long.contains(last) {
            assert(long =~= long_before.insert(last));
        } else {
            assert(long =~= long_before);
        }
    }
}

/// Whether no file behind file `i` has its path.
pub open spec fn is_last_of_its_path(files: Seq<ParseFileRecordView>, i: int) -> bool {
    0 <= i < files.len() && forall|k: int|
        i < k < files.len() ==> (#[trigger] files[k]).path != files[i].path
}

proof fn last_file_has_its_position(files: Seq<ParseFileRecordView>, i: int)
    requires
        is_last_of_its_path(files, i),
    ensures
        complexity::position_of(files, files[i].path) == Some(i),
    decreases files.len(),
{
    if i < files.len() - 1 {
        let front = files.drop_last();
        assert(files[files.len() - 1].path != files[i].path);
        assert(front[i] == files[i]);
        assert forall|k: int| i < k < front.len() implies (#[trigger] front[k]).path
            != front[i].path by {
            assert(front[k] == files[k]);
        }
        last_file_has_its_position(front, i);
    }
}

/// A file counts its functions and methods and its large symbols, and keeps what the parse says of
/// it.
pub proof fn files_count_their_symbols(report: ParseReportView, i: int)
    requires
        is_last_of_its_path(report.files, i),
        report.symbols.len() <= u64::MAX,
    ensures
        complexity::complexity_of(report).files.len() == report.files.len(),
        ({
            let file = report.files[i];
            let row = complexity::complexity_of(report).files[i];
            &&& row.path == file.path
            &&& row.language == file.language
            &&& row.status == file.status
            &&& row.symbol_count == file.symbol_count
            &&& row.function_method_count == functions_in(report.symbols, file.path).len()
            &&& row.large_symbol_count == long_symbols_in(report.symbols, file.path).len()
        }),
{
    last_file_has_its_position(report.files, i);
    file_counts(report.symbols, report.files[i].path);
}

proof fn file_maxima(symbols: Seq<ParseSymbolRecordView>, path: Seq<char>)
    ensures
        ({
            let own = complexity::tally(symbols, path);
            &&& forall|j: int|
                functions_in(symbols, path).contains(j) ==> ((
                #[trigger] symbols[j]).cyclomatic_complexity matches Some(n) ==> own.cyclomatic
                    is Some && n <= own.cyclomatic->0)
            &&& forall|j: int|
                functions_in(symbols, path).contains(j) ==> ((
                #[trigger] symbols[j]).max_control_flow_nesting matches Some(n) ==> own.nesting
                    is Some && n <= own.nesting->0)
            &&& own.cyclomatic is Some ==> exists|j: int|
                functions_in(symbols, path).contains(j) && (
                #[trigger] symbols[j]).cyclomatic_complexity == own.cyclomatic
            &&& own.nesting is Some ==> exists|j: int|
                functions_in(symbols, path).contains(j) && (
                #[trigger] symbols[j]).max_control_flow_nesting == own.nesting
        }),
    decreases symbols.len(),
{
    if symbols.len() > 0 {
        let front = symbols.drop_last();
        let last = symbols.len() - 1;
        file_maxima(front, path);
        let before = complexity::tally(front, path);
        let own = complexity::tally(symbols, path);
        assert forall|j: int| functions_in(symbols, path).contains(j) && j < last implies
            functions_in(front, path).contains(j) && front[j] == symbols[j] by {}
        if own.cyclomatic is Some {
            if own.cyclomatic == before.cyclomatic {
                let j = choose|j: int|
                    functions_in(front, path).contains(j) && (
                    #[trigger] front[j]).cyclomatic_complexity == before.cyclomatic;
                assert(functions_in(symbols, path).contains(j));
                assert(symbols[j].cyclomatic_complexity == own.cyclomatic);
            } else {
                assert(functions_in(symbols, path).contains(last));
                assert(symbols[last].cyclomatic_complexity == own.cyclomatic);
            }
        }
        if own.nesting is Some {
            if own.nesting == before.nesting {
                let j = choose|j: int|
                    functions_in(front, path).contains(j) && (
                    #[trigger] front[j]).max_control_flow_nesting == before.nesting;
                assert(functions_in(symbols, path).contains(j));
                assert(symbols[j].max_control_flow_nesting == own.nesting);
            } else {
                assert(functions_in(symbols, path).contains(last));
                assert(symbols[last].max_control_flow_nesting == own.nesting);
            }
        }
    }
}

/// The complexity of a file is that of its most complex function or method; so is its nesting that
/// of the deepest.
pub proof fn files_are_as_complex_as_their_worst_function(report: ParseReportView, i: int)
    requires
        is_last_of_its_path(report.files, i),
    ensures
        ({
            let row = complexity::complexity_of(report).files[i];
            let own = functions_in(report.symbols, report.files[i].path);
            let symbols = report.symbols;
            &&& forall|j: int|
                own.contains(j) ==> ((#[trigger] symbols[j]).cyclomatic_complexity matches Some(n)
                    ==> row.max_cyclomatic_complexity is Some && n
                    <= row.max_cyclomatic_complexity->0)
            &&& forall|j: int|
                own.contains(j) ==> ((#[trigger] symbols[j]).max_control_flow_nesting matches Some(
                    n,
                ) ==> row.max_nesting_depth is Some && n <= row.max_nesting_depth->0)
            &&& row.max_cyclomatic_complexity is Some ==> exists|j: int|
                own.contains(j) && (#[trigger] symbols[j]).cyclomatic_complexity
                    == row.max_cyclomatic_complexity
            &&& row.max_nesting_depth is Some ==> exists|j: int|
                own.contains(j) && (#[trigger] symbols[j]).max_control_flow_nesting
                    == row.max_nesting_depth
        }),
{
    last_file_has_its_position(report.files, i);
    file_maxima(report.symbols, report.files[i].path);
}

proof fn total_maxima(symbols: Seq<ParseSymbolRecordView>)
    ensures
        ({
            let most = complexity::or_zero(complexity::largest_cyclomatic(symbols));
            let deepest = complexity::or_zero(complexity::deepest_nesting(symbols));
            &&& forall|j: int|
                0 <= j < symbols.len() ==> ((
                #[trigger] symbols[j]).cyclomatic_complexity matches Some(n) ==> n <= most)
            &&& forall|j: int|
                0 <= j < symbols.len() ==> ((
                #[trigger] symbols[j]).max_control_flow_nesting matches Some(n) ==> n <= deepest)
            &&& most > 0 ==> exists|j: int|
                0 <= j < symbols.len() && (#[trigger] symbols[j]).cyclomatic_complexity == Some(
                    most,
                )
            &&& deepest > 0 ==> exists|j: int|
                0 <= j < symbols.len() && (#[trigger] symbols[j]).max_control_flow_nesting == Some(
                    deepest,
                )
        }),
    decreases symbols.len(),
{
    if symbols.len() > 0 {
        let front = symbols.drop_last();
        let last = symbols.len() - 1;
        total_maxima(front);
        let most = complexity::or_zero(complexity::largest_cyclomatic(symbols));
        let most_before = complexity::or_zero(complexity::largest_cyclomatic(front));
        let deepest = complexity::or_zero(complexity::deepest_nesting(symbols));
        let deepest_before = complexity::or_zero(complexity::deepest_nesting(front));
        assert forall|j: int| 0 <= j < last implies front[j] == symbols[j] by {}
        if most > 0 {
            if most == most_before {
                let j = choose|j: int|
                    0 <= j < front.len() && (#[trigger] front[j]).cyclomatic_complexity == Some(
                        most,
                    );
                assert(symbols[j].cyclomatic_complexity == Some(most));
            } else {
                assert(symbols[last].cyclomatic_complexity == Some(most));
            }
        }
        if deepest > 0 {
            if deepest == deepest_before {
                let j = choose|j: int|
                    0 <= j < front.len() && (#[trigger] front[j]).max_control_flow_nesting == Some(
                        deepest,
                    );
                assert(symbols[j].max_control_flow_nesting == Some(deepest));
            } else {
                assert(symbols[last].max_control_flow_nesting == Some(deepest));
            }
        }
    }
}

/// The totals count the files, the symbols, the functions and methods, the large symbols and the
/// dependencies.
pub proof fn totals_count_what_is_there(report: ParseReportView)
    requires
        report.symbols.len() <= u64::MAX,
        report.files.len() <= u64::MAX,
        dependency::dependencies(report).len() <= u64::MAX,
    ensures
        ({
            let summary = complexity::complexity_of(report).summary;
            &&& summary.total_files == report.files.len()
            &&& summary.symbol_count == report.symbols.len()
            &&& summary.function_method_count == all_functions(report.symbols).len()
            &&& summary.large_symbol_count == all_long_symbols(report.symbols).len()
            &&& summary.dependency_edge_count == dependency::dependencies(report).len()
        }),
{
    total_counts(report.symbols);
}

/// No symbol is more complex or deeper than the totals say, and some symbol is as complex and some
/// as deep.
pub proof fn totals_are_the_worst_symbol(report: ParseReportView)
    ensures
        ({
            let summary = complexity::complexity_of(report).summary;
            let symbols = report.symbols;
            &&& forall|j: int|
                0 <= j < symbols.len() ==> ((
                #[trigger] symbols[j]).cyclomatic_complexity matches Some(n) ==> n
                    <= summary.max_cyclomatic_complexity)
            &&& forall|j: int|
                0 <= j < symbols.len() ==> ((
                #[trigger] symbols[j]).max_control_flow_nesting matches Some(n) ==> n
                    <= summary.max_nesting_depth)
            &&& summary.max_cyclomatic_complexity > 0 ==> exists|j: int|
                0 <= j < symbols.len() && (#[trigger] symbols[j]).cyclomatic_complexity == Some(
                    summary.max_cyclomatic_complexity,
                )
            &&& summary.max_nesting_depth > 0 ==> exists|j: int|
                0 <= j < symbols.len() && (#[trigger] symbols[j]).max_control_flow_nesting == Some(
                    summary.max_nesting_depth,
                )
        }),
{
    total_maxima(report.symbols);
}

/// Whether an edge leads from a file to another.
pub open spec fn joins(
    edges: Seq<ResolvedDependencyEdgeView>,
    source: Seq<char>,
    target: Seq<char>,
) -> bool {
    exists|e: int|
        0 <= e < edges.len() && (#[trigger] edges[e]).source_path == source && edges[e].target_path
            == target
}

/// The files that need a file.
pub open spec fn dependents(edges: Seq<ResolvedDependencyEdgeView>, path: Seq<char>) -> Set<
    Seq<char>,
> {
    Set::new(|source: Seq<char>| joins(edges, source, path))
}

/// The files that a file needs.
pub open spec fn needs(edges: Seq<ResolvedDependencyEdgeView>, path: Seq<char>) -> Set<Seq<char>> {
    Set::new(|target: Seq<char>| joins(edges, path, target))
}

proof fn ends_are_counted(edges: Seq<ResolvedDependencyEdgeView>, path: Seq<char>)
    ensures
        fan::sources_of(edges, path) == dependents(edges, path),
        fan::targets_of(edges, path) == needs(edges, path),
        fan::sources_of(edges, path).finite(),
        fan::targets_of(edges, path).finite(),
        fan::sources_of(edges, path).len() <= edges.len(),
        fan::targets_of(edges, path).len() <= edges.len(),
    decreases edges.len(),
{
    if edges.len() == 0 {
        assert(fan::sources_of(edges, path) =~= dependents(edges, path));
        assert(fan::targets_of(edges, path) =~= needs(edges, path));
    } else {
        let front = edges.drop_last();
        let last = edges.last();
        ends_are_counted(front, path);
        assert forall|a: Seq<char>, b: Seq<char>| #[trigger] joins(edges, a, b) == (joins(
            front,
            a,
            b,
        ) || (last.source_path == a && last.target_path == b)) by {
            if joins(edges, a, b) {
                let e = choose|e: int|
                    0 <= e < edges.len() && (#[trigger] edges[e]).source_path == a
                        && edges[e].target_path == b;
                if e < front.len() {
                    assert(front[e] == edges[e]);
                }
            }
            if joins(front, a, b) {
                let e = choose|e: int|
                    0 <= e < front.len() && (#[trigger] front[e]).source_path == a
                        && front[e].target_path == b;
                assert(edges[e].source_path == a);
            }
            if last.source_path == a && last.target_path == b {
                assert(edges[edges.len() - 1].source_path == a);
            }
        }
        assert(fan::sources_of(edges, path) =~= dependents(edges, path));
        assert(fan::targets_of(edges, path) =~= needs(edges, path));
    }
}

/// The numbers of a file are those of the files that need it and of those that it needs, each
/// counted once.
pub proof fn files_count_who_needs_whom(report: ParseReportView, i: int)
    requires
        0 <= i < report.files.len(),
        dependency::dependencies(report).len() <= u64::MAX,
    ensures
        ({
            let row = complexity::complexity_of(report).files[i];
            let edges = dependency::dependencies(report);
            &&& row.fan_in == dependents(edges, report.files[i].path).len()
            &&& row.fan_out == needs(edges, report.files[i].path).len()
        }),
{
    ends_are_counted(dependency::dependencies(report), report.files[i].path);
}

proof fn maxima_bound(
    edges: Seq<ResolvedDependencyEdgeView>,
    paths: Seq<Seq<char>>,
    k: int,
)
    requires
        0 <= k < paths.len(),
    ensures
        fan::fan_of(edges, paths[k]).fan_in <= fan::largest_fan_in(edges, paths),
        fan::fan_of(edges, paths[k]).fan_out <= fan::largest_fan_out(edges, paths),
    decreases paths.len(),
{
    if k < paths.len() - 1 {
        assert(paths.drop_last()[k] == paths[k]);
        maxima_bound(edges, paths.drop_last(), k);
    }
}

proof fn maxima_are_reached(edges: Seq<ResolvedDependencyEdgeView>, paths: Seq<Seq<char>>)
    ensures
        fan::largest_fan_in(edges, paths) > 0 ==> exists|p: Seq<char>|
            (#[trigger] fan::fan_of(edges, p)).fan_in == fan::largest_fan_in(edges, paths),
        fan::largest_fan_out(edges, paths) > 0 ==> exists|p: Seq<char>|
            (#[trigger] fan::fan_of(edges, p)).fan_out == fan::largest_fan_out(edges, paths),
    decreases paths.len(),
{
    if paths.len() > 0 {
        maxima_are_reached(edges, paths.drop_last());
    }
}

/// No file has a larger number than the totals say.
pub proof fn totals_bound_the_files(report: ParseReportView, i: int)
    requires
        0 <= i < report.files.len(),
    ensures
        ({
            let out = complexity::complexity_of(report);
            &&& out.files[i].fan_in <= out.summary.max_fan_in
            &&& out.files[i].fan_out <= out.summary.max_fan_out
        }),
{
    let edges = dependency::dependencies(report);
    let all = fan::mentioned(report.files, edges);
    complexity::file_is_mentioned(report.files, edges, i);
    mentioned_is_finite(report.files, edges);
    table::listing_of_finite(all);
    let paths = table::listing(all);
    assert(paths.to_set().contains(report.files[i].path));
    let k = choose|k: int| 0 <= k < paths.len() && paths[k] == report.files[i].path;
    maxima_bound(edges, paths, k);
}

proof fn mentioned_is_finite(
    files: Seq<ParseFileRecordView>,
    edges: Seq<ResolvedDependencyEdgeView>,
)
    ensures
        fan::mentioned(files, edges).finite(),
    decreases edges.len(), files.len(),
{
    if edges.len() > 0 {
        mentioned_is_finite(files, edges.drop_last());
    } else {
        paths_are_finite(files);
    }
}

proof fn paths_are_finite(files: Seq<ParseFileRecordView>)
    ensures
        fan::file_paths(files).finite(),
    decreases files.len(),
{
    if files.len() > 0 {
        paths_are_finite(files.drop_last());
    }
}

/// Some file has as many files that need it, and some needs as many, as the totals say.
pub proof fn totals_are_reached(report: ParseReportView)
    requires
        dependency::dependencies(report).len() <= u64::MAX,
    ensures
        ({
            let summary = complexity::complexity_of(report).summary;
            let edges = dependency::dependencies(report);
            &&& summary.max_fan_in > 0 ==> exists|p: Seq<char>|
                (#[trigger] dependents(edges, p)).len() == summary.max_fan_in
            &&& summary.max_fan_out > 0 ==> exists|p: Seq<char>|
                (#[trigger] needs(edges, p)).len() == summary.max_fan_out
        }),
{
    let edges = dependency::dependencies(report);
    let paths = table::listing(fan::mentioned(report.files, edges));
    let summary = complexity::complexity_of(report).summary;
    maxima_are_reached(edges, paths);
    if summary.max_fan_in > 0 {
        let p = choose|p: Seq<char>|
            (#[trigger] fan::fan_of(edges, p)).fan_in == summary.max_fan_in;
        ends_are_counted(edges, p);
        assert(dependents(edges, p).len() == summary.max_fan_in);
    }
    if summary.max_fan_out > 0 {
        let p = choose|p: Seq<char>|
            (#[trigger] fan::fan_of(edges, p)).fan_out == summary.max_fan_out;
        ends_are_counted(edges, p);
        assert(needs(edges, p).len() == summary.max_fan_out);
    }
}

proof fn function_is_kept(symbols: Seq<ComplexitySymbolRecordView>, i: int)
    requires
        0 <= i < symbols.len(),
        symbols[i].function_length_lines is Some,
    ensures
        complexity::functions_of(symbols).contains(complexity::ranked_symbol(symbols[i])),
    decreases symbols.len(),
{
    let one = complexity::ranked_symbol(symbols[i]);
    let all = complexity::functions_of(symbols);
    if i < symbols.len() - 1 {
        let front = symbols.drop_last();
        assert(front[i] == symbols[i]);
        function_is_kept(front, i);
        let before = complexity::functions_of(front);
        let k = choose|k: int| 0 <= k < before.len() && before[k] == one;
        assert(all[k] == one);
    } else {
        assert(all[all.len() - 1] == one);
    }
}

/// Whether a row of a ranking is that of a symbol.
pub open spec fn ranks(row: RankedSymbolView, symbol: ComplexitySymbolRecordView) -> bool {
    &&& row.path == symbol.path
    &&& row.name == symbol.name
    &&& row.kind == symbol.kind
    &&& row.start_line == symbol.start_line
    &&& symbol.function_length_lines == Some(row.length_lines)
    &&& row.cyclomatic_complexity == match symbol.cyclomatic_complexity {
        Some(n) => n,
        None => 0,
    }
    &&& row.max_control_flow_nesting == match symbol.max_control_flow_nesting {
        Some(n) => n,
        None => 0,
    }
}

/// Every function or method is ranked.
pub proof fn functions_are_ranked(symbols: Seq<ComplexitySymbolRecordView>, i: int) -> (k: int)
    requires
        0 <= i < symbols.len(),
        symbols[i].function_length_lines is Some,
    ensures
        0 <= k < complexity::ranking(symbols).len(),
        ranks(complexity::ranking(symbols)[k], symbols[i]),
{
    let all = complexity::functions_of(symbols);
    let lt = order::by_key::<RankedSymbol>();
    let one = complexity::ranked_symbol(symbols[i]);
    function_is_kept(symbols, i);
    order::sorted_by_permutes(all, lt);
    order::contains_by_multiset(all, order::sorted_by(all, lt), one);
    let ranked = complexity::ranking(symbols);
    choose|k: int| 0 <= k < ranked.len() && ranked[k] == one
}

proof fn ranked_is_function(symbols: Seq<ComplexitySymbolRecordView>, k: int) -> (i: int)
    requires
        0 <= k < complexity::functions_of(symbols).len(),
    ensures
        0 <= i < symbols.len(),
        ranks(complexity::functions_of(symbols)[k], symbols[i]),
    decreases symbols.len(),
{
    let front = symbols.drop_last();
    let before = complexity::functions_of(front);
    if k < before.len() {
        let i = ranked_is_function(front, k);
        assert(front[i] == symbols[i]);
        i
    } else {
        symbols.len() - 1
    }
}

/// Only functions and methods are ranked.
pub proof fn only_functions_are_ranked(symbols: Seq<ComplexitySymbolRecordView>, k: int) -> (i: int)
    requires
        0 <= k < complexity::ranking(symbols).len(),
    ensures
        0 <= i < symbols.len(),
        ranks(complexity::ranking(symbols)[k], symbols[i]),
{
    let all = complexity::functions_of(symbols);
    let lt = order::by_key::<RankedSymbol>();
    let ranked = complexity::ranking(symbols);
    order::sorted_by_permutes(all, lt);
    assert(ranked.contains(ranked[k]));
    order::contains_by_multiset(ranked, all, ranked[k]);
    let m = choose|m: int| 0 <= m < all.len() && all[m] == ranked[k];
    ranked_is_function(symbols, m)
}

/// The most complex functions come first; of those, the deepest; of those, the longest.
pub proof fn worse_functions_come_first(symbols: Seq<ComplexitySymbolRecordView>, i: int, j: int)
    requires
        0 <= i < j < complexity::ranking(symbols).len(),
    ensures
        ({
            let (a, b) = (complexity::ranking(symbols)[i], complexity::ranking(symbols)[j]);
            a.cyclomatic_complexity > b.cyclomatic_complexity || (a.cyclomatic_complexity
                == b.cyclomatic_complexity && (a.max_control_flow_nesting
                > b.max_control_flow_nesting || (a.max_control_flow_nesting
                == b.max_control_flow_nesting && a.length_lines >= b.length_lines)))
        }),
{
    let all = complexity::functions_of(symbols);
    let lt = order::by_key::<RankedSymbol>();
    order::by_key_is_strict_weak::<RankedSymbol>();
    order::sorted_by_is_sorted(all, lt);
    let ranked = complexity::ranking(symbols);
    let (a, b) = (ranked[i], ranked[j]);
    assert(!lt(b, a));
    let (x, y) = (
        <RankedSymbol as order::Ordered>::key(b),
        <RankedSymbol as order::Ordered>::key(a),
    );
    reveal_with_fuel(order::key_lt_from, 4);
    assert(lt(b, a) == order::key_lt_from(x, y, 0));
    assert(x[0] == order::KeyPart::Number(-(b.cyclomatic_complexity as int)));
    assert(y[0] == order::KeyPart::Number(-(a.cyclomatic_complexity as int)));
    assert(x[1] == order::KeyPart::Number(-(b.max_control_flow_nesting as int)));
    assert(y[1] == order::KeyPart::Number(-(a.max_control_flow_nesting as int)));
    assert(x[2] == order::KeyPart::Number(-(b.length_lines as int)));
    assert(y[2] == order::KeyPart::Number(-(a.length_lines as int)));
}

} // verus!
