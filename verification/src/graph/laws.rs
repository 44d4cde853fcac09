//! What holds of the dependencies around the files that are selected.

use vstd::prelude::*;

use crate::dependency;
use crate::dependency::{ResolvedDependencyEdge, ResolvedDependencyEdgeView};
use crate::graph;
use crate::graph::EdgeEnd;
use crate::order;
use crate::parse::{ParseFileRecordView, ParseReportView};
use crate::table;
use crate::text;

verus! {

/// Whether a path or selector is written with `/` alone, and does not start with `./`.
pub open spec fn is_plain(path: Seq<char>) -> bool {
    &&& forall|i: int| 0 <= i < path.len() ==> #[trigger] path[i] != '\\'
    &&& !(path.len() >= 2 && path[0] == '.' && path[1] == '/')
}

proof fn plain_paths_stay(path: Seq<char>)
    requires
        is_plain(path),
    ensures
        graph::normal(path) == path,
{
    assert(text::replaced(path, '\\', '/') =~= path);
}

/// A selector that holds `/` means the file at its path, and what lies below it.
pub proof fn path_selectors_mean_what_is_at_their_path(
    selector: Seq<char>,
    path: Seq<char>,
    at: int,
)
    requires
        is_plain(selector),
        is_plain(path),
        0 <= at < selector.len(),
        selector[at] == '/',
    ensures
        path == selector ==> graph::selects(selector, path),
        selector.len() < path.len() && path.take(selector.len() as int) == selector && (
        path[selector.len() as int] == '/' || path[selector.len() as int] == '.')
            ==> graph::selects(selector, path),
        !(path.len() >= selector.len() && path.take(selector.len() as int) == selector)
            ==> !graph::selects(selector, path),
        selector.len() < path.len() && path[selector.len() as int] != '/'
            && path[selector.len() as int] != '.' ==> !graph::selects(selector, path),
{
    reveal_strlit("/");
    reveal_strlit(".");
    plain_paths_stay(selector);
    plain_paths_stay(path);
    assert(selector.subrange(at, at + 1) =~= "/"@);
    assert(text::holds_part(selector, "/"@));
    assert(path.take(path.len() as int) =~= path);
    let n = selector.len() as int;
    if n < path.len() {
        let rest = path.skip(n);
        assert(rest.take(1) =~= seq![path[n]]);
        assert("/"@ =~= seq!['/']);
        assert("."@ =~= seq!['.']);
        assert(rest.take(1)[0] == path[n]);
        assert(text::begins_with(rest, "/"@) ==> rest.take(1)[0] == '/');
        assert(text::begins_with(rest, "."@) ==> rest.take(1)[0] == '.');
    } else if n == path.len() {
        assert(path.skip(n) =~= Seq::empty());
    }
}

/// An empty selector means no file.
pub proof fn empty_selectors_mean_nothing(path: Seq<char>)
    ensures
        !graph::selects(Seq::empty(), path),
{
    plain_paths_stay(Seq::empty());
}

proof fn names_are_not_paths(selector: Seq<char>)
    requires
        is_name(selector),
    ensures
        !graph::is_path_selector(selector),
    decreases selector.len(),
{
    reveal_strlit("/");
    assert(!text::holds_part(selector, "/"@)) by {
        if text::holds_part(selector, "/"@) {
            let i = choose|i: int|
                0 <= i <= selector.len() - "/"@.len() && #[trigger] selector.subrange(
                    i,
                    i + "/"@.len(),
                ) == "/"@;
            assert(selector.subrange(i, i + 1)[0] == selector[i]);
            assert("/"@[0] == '/');
        }
    }
    no_dot_is_found(selector);
}

proof fn no_dot_is_found(s: Seq<char>)
    requires
        forall|i: int| 0 <= i < s.len() ==> #[trigger] s[i] != '.',
    ensures
        text::last_index(s, '.') is None,
    decreases s.len(),
{
    if s.len() > 0 {
        let front = s.drop_last();
        assert(s[s.len() - 1] == s.last());
        assert forall|i: int| 0 <= i < front.len() implies #[trigger] front[i] != '.' by {
            assert(front[i] == s[i]);
        }
        no_dot_is_found(front);
    }
}

/// Whether a selector is a bare name.
pub open spec fn is_name(selector: Seq<char>) -> bool {
    selector.len() > 0 && forall|i: int|
        0 <= i < selector.len() ==> #[trigger] selector[i] != '/' && selector[i] != '\\'
            && selector[i] != '.'
}

/// A bare name means every file on whose path it is one of the names.
pub proof fn names_mean_what_is_below_them(
    name: Seq<char>,
    path: Seq<char>,
    before: Seq<char>,
    after: Seq<char>,
)
    requires
        is_name(name),
        is_plain(path),
        path == before + name + after,
        before.len() == 0 || before.last() == '/',
        after.len() == 0 || after[0] == '/',
    ensures
        graph::selects(name, path),
{
    plain_paths_stay(name);
    plain_paths_stay(path);
    names_are_not_paths(name);
    assert(!name.contains('/'));
    crate::scan::laws::names_are_pieces(path, before, name, after);
}

/// The files of a report that are selected.
pub open spec fn is_selected(
    selector: Seq<char>,
    files: Seq<ParseFileRecordView>,
    path: Seq<char>,
) -> bool {
    exists|i: int|
        0 <= i < files.len() && (#[trigger] files[i]).path == path && graph::selects(
            graph::normal(selector),
            path,
        )
}

proof fn selected_files_match(
    chosen: Seq<char>,
    files: Seq<ParseFileRecordView>,
    path: Seq<char>,
)
    ensures
        graph::matched(chosen, files).contains(path) <==> exists|i: int|
            0 <= i < files.len() && (#[trigger] files[i]).path == path && graph::selects(
                chosen,
                path,
            ),
        graph::matched(chosen, files).finite(),
    decreases files.len(),
{
    if files.len() > 0 {
        let front = files.drop_last();
        let last = files.len() - 1;
        selected_files_match(chosen, front, path);
        if graph::matched(chosen, front).contains(path) {
            let i = choose|i: int|
                0 <= i < front.len() && (#[trigger] front[i]).path == path && graph::selects(
                    chosen,
                    path,
                );
            assert(files[i].path == path);
        }
        if files[last].path == path && graph::selects(chosen, path) {
            assert(graph::matched(chosen, files).contains(path));
        }
        if (exists|i: int|
            0 <= i < files.len() && (#[trigger] files[i]).path == path && graph::selects(
                chosen,
                path,
            )) && files[last].path != path {
            let i = choose|i: int|
                0 <= i < files.len() && (#[trigger] files[i]).path == path && graph::selects(
                    chosen,
                    path,
                );
            assert(front[i].path == path);
        }
    }
}

/// The files that are listed are those that are selected.
pub proof fn listed_files_are_selected(
    selector: Seq<char>,
    report: ParseReportView,
    path: Seq<char>,
)
    ensures
        graph::graph_of(selector, report).matched_files.contains(path) <==> is_selected(
            selector,
            report.files,
            path,
        ),
{
    let chosen = graph::normal(selector);
    let set = graph::matched(chosen, report.files);
    selected_files_match(chosen, report.files, path);
    table::listing_of_finite(set);
    assert(table::listing(set).to_set().contains(path) == set.contains(path));
}

proof fn edges_at_files(
    edges: Seq<ResolvedDependencyEdgeView>,
    files: Set<Seq<char>>,
    end: EdgeEnd,
    edge: ResolvedDependencyEdgeView,
)
    ensures
        graph::edges_at(edges, files, end).contains(edge) <==> edges.contains(edge)
            && files.contains(
            match end {
                EdgeEnd::Source => edge.source_path,
                EdgeEnd::Target => edge.target_path,
            },
        ),
{
    let keep = graph::ends_in(files, end);
    let kept = edges.filter(keep);
    let lt = order::by_key::<ResolvedDependencyEdge>();
    order::sorted_by_permutes(kept, lt);
    edges.filter_lemma(keep);
    if kept.contains(edge) {
        order::contains_by_multiset(kept, order::sorted_by(kept, lt), edge);
        edges.lemma_filter_contains_rev(keep, edge);
        let k = choose|k: int| 0 <= k < kept.len() && kept[k] == edge;
        assert(keep(kept[k]));
    }
    if graph::edges_at(edges, files, end).contains(edge) {
        order::contains_by_multiset(order::sorted_by(kept, lt), kept, edge);
    }
    if edges.contains(edge) && keep(edge) {
        let k = choose|k: int| 0 <= k < edges.len() && edges[k] == edge;
        assert(kept.contains(edges[k]));
    }
}

/// The dependencies that leave a selected file are outgoing, those that lead to one incoming, and
/// no others are shown.
pub proof fn edges_touch_selected_files(
    selector: Seq<char>,
    report: ParseReportView,
    edge: ResolvedDependencyEdgeView,
)
    ensures
        ({
            let out = graph::graph_of(selector, report);
            let there = dependency::dependencies(report).contains(edge);
            &&& out.outgoing.contains(edge) <==> there && is_selected(
                selector,
                report.files,
                edge.source_path,
            )
            &&& out.incoming.contains(edge) <==> there && is_selected(
                selector,
                report.files,
                edge.target_path,
            )
        }),
{
    let chosen = graph::normal(selector);
    let set = graph::matched(chosen, report.files);
    let edges = dependency::dependencies(report);
    selected_files_match(chosen, report.files, edge.source_path);
    selected_files_match(chosen, report.files, edge.target_path);
    edges_at_files(edges, set, EdgeEnd::Source, edge);
    edges_at_files(edges, set, EdgeEnd::Target, edge);
}

/// The totals are the numbers of what is listed.
pub proof fn totals_are_what_is_listed(selector: Seq<char>, report: ParseReportView)
    requires
        graph::graph_of(selector, report).matched_files.len() <= u64::MAX,
        graph::graph_of(selector, report).outgoing.len() <= u64::MAX,
        graph::graph_of(selector, report).incoming.len() <= u64::MAX,
    ensures
        ({
            let out = graph::graph_of(selector, report);
            &&& out.summary.matched_file_count == out.matched_files.len()
            &&& out.summary.outgoing_edge_count == out.outgoing.len()
            &&& out.summary.incoming_edge_count == out.incoming.len()
        }),
{
    let set = graph::matched(graph::normal(selector), report.files);
    selected_files_match(graph::normal(selector), report.files, Seq::empty());
    table::listing_of_finite(set);
    table::ascending_has_no_duplicates(table::listing(set));
    table::listing(set).unique_seq_to_set();
}

} // verus!
