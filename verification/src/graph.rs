//! The dependencies around some files of a repository.

pub mod laws;

use vstd::prelude::*;

use crate::dependency;
use crate::dependency::{ResolvedDependencyEdge, ResolvedDependencyEdgeView};
use crate::numbers;
use crate::order;
use crate::parse::{ParseFileRecord, ParseFileRecordView, ParseReport, ParseReportView};
use crate::table;
use crate::table::TextSet;
use crate::text;

verus! {

pub const GRAPH_SCHEMA_VERSION: &'static str = "hotpath.graph.v1";

/// The totals of a graph.
#[derive(Debug, Clone, Copy, PartialEq, Eq, Structural)]
pub struct GraphSummary {
    pub matched_file_count: u64,
    pub outgoing_edge_count: u64,
    pub incoming_edge_count: u64,
}

/// The dependencies around the files that a selector means.
#[derive(Debug, Clone, PartialEq, Eq)]
pub struct GraphReport {
    pub selector: String,
    pub summary: GraphSummary,
    pub matched_files: Vec<String>,
    pub outgoing: Vec<ResolvedDependencyEdge>,
    pub incoming: Vec<ResolvedDependencyEdge>,
}

impl DeepView for GraphSummary {
    type V = GraphSummary;

    open spec fn deep_view(&self) -> GraphSummary {
        *self
    }
}

/// What a [`GraphReport`] stands for.
#[verifier::ext_equal]
pub struct GraphReportView {
    pub selector: Seq<char>,
    pub summary: GraphSummary,
    pub matched_files: Seq<Seq<char>>,
    pub outgoing: Seq<ResolvedDependencyEdgeView>,
    pub incoming: Seq<ResolvedDependencyEdgeView>,
}

impl DeepView for GraphReport {
    type V = GraphReportView;

    open spec fn deep_view(&self) -> GraphReportView {
        GraphReportView {
            selector: self.selector@,
            summary: self.summary,
            matched_files: self.matched_files.deep_view(),
            outgoing: self.outgoing.deep_view(),
            incoming: self.incoming.deep_view(),
        }
    }
}

/// A path without `./` at its start.
pub open spec fn without_current_dir(path: Seq<char>) -> Seq<char>
    decreases path.len(),
{
    if path.len() >= 2 && path[0] == '.' && path[1] == '/' {
        without_current_dir(path.skip(2))
    } else {
        path
    }
}

/// A path or selector with `/` between its segments, and without `./` at its start.
pub open spec fn normal(path: Seq<char>) -> Seq<char> {
    without_current_dir(text::replaced(path, '\\', '/'))
}

fn normalize_path(path: &str) -> (out: String)
    ensures
        out@ == normal(path@),
{
    let replaced = text::replace_char(path, '\\', '/');
    let chars = text::chars_of(replaced.as_str());
    let mut i: usize = 0;
    assert(chars@.skip(0) =~= chars@);
    while chars.len() - i >= 2 && chars[i] == '.' && chars[i + 1] == '/'
        invariant
            i <= chars.len(),
            without_current_dir(chars@) == without_current_dir(chars@.skip(i as int)),
        decreases chars.len() - i,
    {
        assert(chars@.skip(i as int).skip(2) =~= chars@.skip(i + 2));
        assert(chars@.skip(i as int)[0] == chars@[i as int]);
        assert(chars@.skip(i as int)[1] == chars@[i + 1]);
        i = i + 2;
    }
    let rest = vstd::slice::slice_subrange(chars.as_slice(), i, chars.len());
    assert(rest@ =~= chars@.skip(i as int));
    assert(rest@.len() >= 2 ==> rest@[0] == chars@[i as int] && rest@[1] == chars@[i + 1]);
    text::string_of(rest)
}

/// Whether what stands behind the last dot is an extension of sources.
pub open spec fn has_source_extension(selector: Seq<char>) -> bool {
    match text::last_index(selector, '.') {
        None => false,
        Some(dot) => is_source_extension(text::lowered(selector.skip(dot + 1))),
    }
}

/// Whether an extension is that of sources.
pub open spec fn is_source_extension(extension: Seq<char>) -> bool {
    extension == "bash"@
        || extension == "c"@
        || extension == "cc"@
        || extension == "cpp"@
        || extension == "cs"@
        || extension == "cxx"@
        || extension == "go"@
        || extension == "h"@
        || extension == "hh"@
        || extension == "hpp"@
        || extension == "hxx"@
        || extension == "java"@
        || extension == "js"@
        || extension == "jsx"@
        || extension == "kt"@
        || extension == "kts"@
        || extension == "mjs"@
        || extension == "cjs"@
        || extension == "php"@
        || extension == "proto"@
        || extension == "ps1"@
        || extension == "py"@
        || extension == "rb"@
        || extension == "rs"@
        || extension == "scala"@
        || extension == "sh"@
        || extension == "swift"@
        || extension == "ts"@
        || extension == "tsx"@
        || extension == "zsh"@
}

fn has_known_source_extension(selector: &str) -> (r: bool)
    ensures
        r == has_source_extension(selector@),
{
    let chars = text::chars_of(selector);
    match text::find_last(chars.as_slice(), '.') {
        None => false,
        Some(dot) => {
            let back = vstd::slice::slice_subrange(chars.as_slice(), dot + 1, chars.len());
            assert(back@ =~= selector@.skip(dot + 1));
            let lowered = text::to_lower(text::string_of(back).as_str());
            let extension = lowered.as_str();
            text::same(extension, "bash")
                || text::same(extension, "c")
                || text::same(extension, "cc")
                || text::same(extension, "cpp")
                || text::same(extension, "cs")
                || text::same(extension, "cxx")
                || text::same(extension, "go")
                || text::same(extension, "h")
                || text::same(extension, "hh")
                || text::same(extension, "hpp")
                || text::same(extension, "hxx")
                || text::same(extension, "java")
                || text::same(extension, "js")
                || text::same(extension, "jsx")
                || text::same(extension, "kt")
                || text::same(extension, "kts")
                || text::same(extension, "mjs")
                || text::same(extension, "cjs")
                || text::same(extension, "php")
                || text::same(extension, "proto")
                || text::same(extension, "ps1")
                || text::same(extension, "py")
                || text::same(extension, "rb")
                || text::same(extension, "rs")
                || text::same(extension, "scala")
                || text::same(extension, "sh")
                || text::same(extension, "swift")
                || text::same(extension, "ts")
                || text::same(extension, "tsx")
                || text::same(extension, "zsh")
        },
    }
}

/// Whether a selector is a path, not a bare name.
pub open spec fn is_path_selector(selector: Seq<char>) -> bool {
    text::holds_part(selector, "/"@) || has_source_extension(selector)
}

/// Whether a path is the selector, or goes on behind it with `/` or `.`.
pub open spec fn path_matches(selector: Seq<char>, path: Seq<char>) -> bool {
    path == selector || match text::without_prefix(path, selector) {
        Some(rest) => text::begins_with(rest, "/"@) || text::begins_with(rest, "."@),
        None => false,
    }
}

fn path_selector_matches_path(selector: &str, path: &str) -> (r: bool)
    ensures
        r == path_matches(selector@, path@),
{
    text::same(path, selector) || match text::strip_prefix(path, selector) {
        Some(rest) => text::starts_with(rest.as_str(), "/") || text::starts_with(
            rest.as_str(),
            ".",
        ),
        None => false,
    }
}

/// A file name without what stands behind its last dot, unless nothing is left.
pub open spec fn stem_of(path: Seq<char>) -> Option<Seq<char>> {
    let name = dependency::last_name(path);
    match text::last_index(name, '.') {
        None => Some(name),
        Some(dot) => if dot == 0 {
            None
        } else {
            Some(name.take(dot))
        },
    }
}

fn file_stem(path: &str) -> (out: Option<String>)
    ensures
        out.deep_view() == stem_of(path@),
{
    let name = dependency::file_name_of(path);
    let chars = text::chars_of(name.as_str());
    match text::find_last(chars.as_slice(), '.') {
        None => Some(name),
        Some(dot) => if dot == 0 {
            None
        } else {
            let front = vstd::slice::slice_subrange(chars.as_slice(), 0, dot);
            assert(front@ =~= name@.take(dot as int));
            Some(text::string_of(front))
        },
    }
}

/// Whether one of the segments of a path, or the stem of its file name, is the selector.
pub open spec fn name_matches(selector: Seq<char>, path: Seq<char>) -> bool {
    text::split_on(path, '/').contains(selector) || stem_of(path) == Some(selector)
}

fn bare_selector_matches_path(selector: &str, path: &str) -> (r: bool)
    ensures
        r == name_matches(selector@, path@),
{
    let parts = text::split_text(path, '/');
    let ghost all = parts.deep_view();
    let mut i: usize = 0;
    while i < parts.len()
        invariant
            i <= parts.len(),
            all == parts.deep_view(),
            all == text::split_on(path@, '/'),
            forall|k: int| 0 <= k < i ==> #[trigger] all[k] != selector@,
        decreases parts.len() - i,
    {
        assert(all[i as int] == parts@[i as int]@);
        if text::same(parts[i].as_str(), selector) {
            return true;
        }
        i = i + 1;
    }
    match file_stem(path) {
        Some(stem) => text::same(stem.as_str(), selector),
        None => false,
    }
}

/// Whether a selector means a path.
pub open spec fn selects(selector: Seq<char>, path: Seq<char>) -> bool {
    let chosen = normal(selector);
    if chosen.len() == 0 {
        false
    } else if is_path_selector(chosen) {
        path_matches(chosen, normal(path))
    } else {
        name_matches(chosen, normal(path))
    }
}

/// Whether a selector means a path.
pub fn selector_matches_path(selector: &str, path: &str) -> (r: bool)
    ensures
        r == selects(selector@, path@),
{
    let chosen = normalize_path(selector);
    let chosen = chosen.as_str();
    if chosen.is_empty() {
        return false;
    }
    let path = normalize_path(path);
    if text::contains(chosen, "/") || has_known_source_extension(chosen) {
        path_selector_matches_path(chosen, path.as_str())
    } else {
        bare_selector_matches_path(chosen, path.as_str())
    }
}

/// The files that a selector means.
pub open spec fn matched(selector: Seq<char>, files: Seq<ParseFileRecordView>) -> Set<Seq<char>>
    decreases files.len(),
{
    if files.len() == 0 {
        Set::empty()
    } else {
        let before = matched(selector, files.drop_last());
        if selects(selector, files.last().path) {
            before.insert(files.last().path)
        } else {
            before
        }
    }
}

fn matched_files(selector: &str, files: &Vec<ParseFileRecord>) -> (out: TextSet)
    ensures
        out.wf(),
        out@ == matched(selector@, files.deep_view()),
{
    let ghost all = files.deep_view();
    let mut out = TextSet::new();
    let mut i: usize = 0;
    while i < files.len()
        invariant
            i <= files.len(),
            all == files.deep_view(),
            out.wf(),
            out@ == matched(selector@, all.take(i as int)),
        decreases files.len() - i,
    {
        assert(all.take(i + 1).drop_last() =~= all.take(i as int));
        assert(all.take(i + 1).last() == files@[i as int].deep_view());
        if selector_matches_path(selector, files[i].path.as_str()) {
            out.insert(files[i].path.as_str());
        }
        i = i + 1;
    }
    assert(all.take(i as int) =~= all);
    out
}

/// Which end of an edge is looked at.
#[derive(Debug, Clone, Copy, PartialEq, Eq, Structural)]
pub enum EdgeEnd {
    Source,
    Target,
}

/// Whether an end of an edge is one of some files.
pub open spec fn ends_in(files: Set<Seq<char>>, end: EdgeEnd) -> spec_fn(
    ResolvedDependencyEdgeView,
) -> bool {
    |edge: ResolvedDependencyEdgeView|
        files.contains(
            match end {
                EdgeEnd::Source => edge.source_path,
                EdgeEnd::Target => edge.target_path,
            },
        )
}

/// The edges of which one end is one of some files, in ascending order.
pub open spec fn edges_at(
    edges: Seq<ResolvedDependencyEdgeView>,
    files: Set<Seq<char>>,
    end: EdgeEnd,
) -> Seq<ResolvedDependencyEdgeView> {
    order::sorted_by(
        edges.filter(ends_in(files, end)),
        order::by_key::<ResolvedDependencyEdge>(),
    )
}

fn select_edges(edges: &Vec<ResolvedDependencyEdge>, files: &TextSet, end: EdgeEnd) -> (out: Vec<
    ResolvedDependencyEdge,
>)
    requires
        files.wf(),
    ensures
        out.deep_view() == edges_at(edges.deep_view(), files@, end),
{
    let ghost all = edges.deep_view();
    let ghost keep = ends_in(files@, end);
    let mut out: Vec<ResolvedDependencyEdge> = Vec::new();
    let mut i: usize = 0;
    proof {
        reveal(Seq::filter);
        assert(out.deep_view() =~= all.take(0).filter(keep));
    }
    while i < edges.len()
        invariant
            i <= edges.len(),
            files.wf(),
            all == edges.deep_view(),
            keep == ends_in(files@, end),
            out.deep_view() == all.take(i as int).filter(keep),
        decreases edges.len() - i,
    {
        let edge = &edges[i];
        let ghost before = out.deep_view();
        proof {
            reveal(Seq::filter);
            assert(all.take(i + 1).drop_last() =~= all.take(i as int));
            assert(all.take(i + 1).last() == edge.deep_view());
        }
        let path = match end {
            EdgeEnd::Source => edge.source_path.as_str(),
            EdgeEnd::Target => edge.target_path.as_str(),
        };
        if files.contains(path) {
            let copy = ResolvedDependencyEdge {
                source_path: edge.source_path.clone(),
                target_path: edge.target_path.clone(),
                kind: edge.kind.clone(),
            };
            assert(copy.deep_view() == edge.deep_view());
            out.push(copy);
            assert(out.deep_view() =~= before.push(edge.deep_view()));
        }
        i = i + 1;
    }
    assert(all.take(i as int) =~= all);
    order::sort(out)
}

/// The dependencies around the files that a selector means.
pub open spec fn graph_of(selector: Seq<char>, report: ParseReportView) -> GraphReportView {
    let chosen = normal(selector);
    let files = matched(chosen, report.files);
    let edges = dependency::dependencies(report);
    let outgoing = edges_at(edges, files, EdgeEnd::Source);
    let incoming = edges_at(edges, files, EdgeEnd::Target);
    GraphReportView {
        selector: chosen,
        summary: GraphSummary {
            matched_file_count: files.len() as u64,
            outgoing_edge_count: outgoing.len() as u64,
            incoming_edge_count: incoming.len() as u64,
        },
        matched_files: table::listing(files),
        outgoing,
        incoming,
    }
}

/// The dependencies around the files that a selector means.
pub fn report_from_parse(selector: &str, report: &ParseReport) -> (out: GraphReport)
    ensures
        out.deep_view() == graph_of(selector@, report.deep_view()),
{
    let selector = normalize_path(selector);
    let files = matched_files(selector.as_str(), &report.files);
    let edges = dependency::resolve_dependencies(report);
    let outgoing = select_edges(&edges, &files, EdgeEnd::Source);
    let incoming = select_edges(&edges, &files, EdgeEnd::Target);
    let summary = GraphSummary {
        matched_file_count: files.len() as u64,
        outgoing_edge_count: outgoing.len() as u64,
        incoming_edge_count: incoming.len() as u64,
    };
    proof {
        table::listing_of_ascending(files.items.deep_view());
    }
    GraphReport { selector, summary, matched_files: files.items, outgoing, incoming }
}

/// Paths as lines.
pub open spec fn path_lines(out: Seq<char>, paths: Seq<Seq<char>>) -> Seq<char>
    decreases paths.len(),
{
    if paths.len() == 0 {
        out
    } else {
        path_lines(out, paths.drop_last()) + "\n  "@ + paths.last()
    }
}

/// Paths as lines, or a line that says that there are none.
pub open spec fn paths_text(out: Seq<char>, paths: Seq<Seq<char>>) -> Seq<char> {
    if paths.len() == 0 {
        out + "\n  none"@
    } else {
        path_lines(out, paths)
    }
}

fn push_paths(out: &mut String, paths: &Vec<String>)
    ensures
        final(out)@ == paths_text(old(out)@, paths.deep_view()),
{
    let ghost start = out@;
    let ghost all = paths.deep_view();
    if paths.len() == 0 {
        out.append("\n  none");
        return;
    }
    let mut i: usize = 0;
    while i < paths.len()
        invariant
            i <= paths.len(),
            all == paths.deep_view(),
            out@ == path_lines(start, all.take(i as int)),
        decreases paths.len() - i,
    {
        assert(all.take(i + 1).drop_last() =~= all.take(i as int));
        assert(all.take(i + 1).last() == paths@[i as int]@);
        out.append("\n  ");
        out.append(paths[i].as_str());
        i = i + 1;
    }
    assert(all.take(i as int) =~= all);
}

/// Edges as lines.
pub open spec fn edge_lines(out: Seq<char>, edges: Seq<ResolvedDependencyEdgeView>) -> Seq<char>
    decreases edges.len(),
{
    if edges.len() == 0 {
        out
    } else {
        let edge = edges.last();
        edge_lines(out, edges.drop_last()) + "\n  "@ + edge.source_path + " -> "@
            + edge.target_path + "  "@ + edge.kind
    }
}

/// Edges as lines, or a line that says that there are none.
pub open spec fn edges_text(out: Seq<char>, edges: Seq<ResolvedDependencyEdgeView>) -> Seq<char> {
    if edges.len() == 0 {
        out + "\n  none"@
    } else {
        edge_lines(out, edges)
    }
}

fn push_edges(out: &mut String, edges: &Vec<ResolvedDependencyEdge>)
    ensures
        final(out)@ == edges_text(old(out)@, edges.deep_view()),
{
    let ghost start = out@;
    let ghost all = edges.deep_view();
    if edges.len() == 0 {
        out.append("\n  none");
        return;
    }
    let mut i: usize = 0;
    while i < edges.len()
        invariant
            i <= edges.len(),
            all == edges.deep_view(),
            out@ == edge_lines(start, all.take(i as int)),
        decreases edges.len() - i,
    {
        let edge = &edges[i];
        assert(all.take(i + 1).drop_last() =~= all.take(i as int));
        assert(all.take(i + 1).last() == edge.deep_view());
        out.append("\n  ");
        out.append(edge.source_path.as_str());
        out.append(" -> ");
        out.append(edge.target_path.as_str());
        out.append("  ");
        out.append(edge.kind.as_str());
        i = i + 1;
    }
    assert(all.take(i as int) =~= all);
}

/// The summary of a graph: its totals, its files and its edges.
pub open spec fn summary_text(report: GraphReportView) -> Seq<char> {
    let head = "Hotpath dependency graph"@
        + "\nselector       "@ + report.selector
        + "\nmatched files  "@ + numbers::decimal(report.summary.matched_file_count as nat)
        + "\noutgoing       "@ + numbers::decimal(report.summary.outgoing_edge_count as nat)
        + "\nincoming       "@ + numbers::decimal(report.summary.incoming_edge_count as nat)
        + "\n\nmatched files"@;
    let files = paths_text(head, report.matched_files) + "\n\noutgoing"@;
    let outgoing = edges_text(files, report.outgoing) + "\n\nincoming"@;
    edges_text(outgoing, report.incoming)
}

/// Renders the summary of a graph.
pub fn render_summary(report: &GraphReport) -> (output: String)
    ensures
        output@ == summary_text(report.deep_view()),
{
    let mut text = "Hotpath dependency graph".to_owned();
    let out = &mut text;
    out.append("\nselector       ");
    out.append(report.selector.as_str());
    out.append("\nmatched files  ");
    numbers::push_decimal(out, report.summary.matched_file_count);
    out.append("\noutgoing       ");
    numbers::push_decimal(out, report.summary.outgoing_edge_count);
    out.append("\nincoming       ");
    numbers::push_decimal(out, report.summary.incoming_edge_count);
    out.append("\n\nmatched files");
    push_paths(out, &report.matched_files);
    out.append("\n\noutgoing");
    push_edges(out, &report.outgoing);
    out.append("\n\nincoming");
    push_edges(out, &report.incoming);
    text
}

/// Renders a summary of the dependencies around the files that a selector means.
pub fn graph_summary(selector: &str, report: &ParseReport) -> (output: String)
    ensures
        output@ == summary_text(graph_of(selector@, report.deep_view())),
{
    render_summary(&report_from_parse(selector, report))
}

} // verus!
