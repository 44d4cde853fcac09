//! How many files depend on each file, and on how many it depends.

use vstd::prelude::*;

use crate::dependency::{
    DependencyFanMetrics, FileDependencyFan, ResolvedDependencyEdge, ResolvedDependencyEdgeView,
};
use crate::parse::{ParseFileRecord, ParseFileRecordView};
use crate::table;
use crate::table::{TextMap, TextRelation};

verus! {

/// The files that a file depends on.
pub open spec fn targets_of(edges: Seq<ResolvedDependencyEdgeView>, path: Seq<char>) -> Set<
    Seq<char>,
>
    decreases edges.len(),
{
    if edges.len() == 0 {
        Set::empty()
    } else {
        let before = targets_of(edges.drop_last(), path);
        if edges.last().source_path == path {
            before.insert(edges.last().target_path)
        } else {
            before
        }
    }
}

/// The files that depend on a file.
pub open spec fn sources_of(edges: Seq<ResolvedDependencyEdgeView>, path: Seq<char>) -> Set<
    Seq<char>,
>
    decreases edges.len(),
{
    if edges.len() == 0 {
        Set::empty()
    } else {
        let before = sources_of(edges.drop_last(), path);
        if edges.last().target_path == path {
            before.insert(edges.last().source_path)
        } else {
            before
        }
    }
}

/// The paths of files.
pub open spec fn file_paths(files: Seq<ParseFileRecordView>) -> Set<Seq<char>>
    decreases files.len(),
{
    if files.len() == 0 {
        Set::empty()
    } else {
        file_paths(files.drop_last()).insert(files.last().path)
    }
}

/// The files and all that the edges join.
pub open spec fn mentioned(
    files: Seq<ParseFileRecordView>,
    edges: Seq<ResolvedDependencyEdgeView>,
) -> Set<Seq<char>>
    decreases edges.len(),
{
    if edges.len() == 0 {
        file_paths(files)
    } else {
        mentioned(files, edges.drop_last()).insert(edges.last().source_path).insert(
            edges.last().target_path,
        )
    }
}

/// The numbers of one file.
pub open spec fn fan_of(edges: Seq<ResolvedDependencyEdgeView>, path: Seq<char>) -> FileDependencyFan {
    FileDependencyFan {
        fan_in: sources_of(edges, path).len() as u64,
        fan_out: targets_of(edges, path).len() as u64,
    }
}

/// The largest number of files that depend on one of `paths`.
pub open spec fn largest_fan_in(
    edges: Seq<ResolvedDependencyEdgeView>,
    paths: Seq<Seq<char>>,
) -> u64
    decreases paths.len(),
{
    if paths.len() == 0 {
        0
    } else {
        let front = largest_fan_in(edges, paths.drop_last());
        let last = fan_of(edges, paths.last()).fan_in;
        if last > front {
            last
        } else {
            front
        }
    }
}

/// The largest number of files that one of `paths` depends on.
pub open spec fn largest_fan_out(
    edges: Seq<ResolvedDependencyEdgeView>,
    paths: Seq<Seq<char>>,
) -> u64
    decreases paths.len(),
{
    if paths.len() == 0 {
        0
    } else {
        let front = largest_fan_out(edges, paths.drop_last());
        let last = fan_of(edges, paths.last()).fan_out;
        if last > front {
            last
        } else {
            front
        }
    }
}

/// What `metrics` hold of files and the edges between them.
pub open spec fn are_metrics_of(
    metrics: DependencyFanMetrics,
    files: Seq<ParseFileRecordView>,
    edges: Seq<ResolvedDependencyEdgeView>,
) -> bool {
    let paths = table::listing(mentioned(files, edges));
    &&& metrics.by_path.wf()
    &&& metrics.by_path@.dom() == mentioned(files, edges)
    &&& forall|path: Seq<char>| #[trigger]
        metrics.by_path@.dom().contains(path) ==> metrics.by_path@[path] == fan_of(edges, path)
    &&& metrics.dependency_edge_count == edges.len()
    &&& metrics.max_fan_in == largest_fan_in(edges, paths)
    &&& metrics.max_fan_out == largest_fan_out(edges, paths)
}

proof fn fan_is_bounded(edges: Seq<ResolvedDependencyEdgeView>, path: Seq<char>)
    ensures
        targets_of(edges, path).finite(),
        sources_of(edges, path).finite(),
    decreases edges.len(),
{
    if edges.len() > 0 {
        fan_is_bounded(edges.drop_last(), path);
    }
}

/// How many files depend on each file, and on how many it depends: on each other file
/// once, whatever the kind of the dependency.
pub fn fan_metrics(files: &Vec<ParseFileRecord>, edges: &Vec<ResolvedDependencyEdge>) -> (out:
    DependencyFanMetrics)
    ensures
        are_metrics_of(out, files.deep_view(), edges.deep_view()),
{
    let ghost all = files.deep_view();
    let ghost joins = edges.deep_view();
    let mut outgoing = TextRelation::new();
    let mut incoming = TextRelation::new();
    let mut i: usize = 0;
    while i < files.len()
        invariant
            i <= files.len(),
            all == files.deep_view(),
            outgoing.wf(),
            incoming.wf(),
            outgoing.keys() == file_paths(all.take(i as int)),
            incoming.keys() == file_paths(all.take(i as int)),
            forall|k: Seq<char>| #[trigger] outgoing.members(k) == Set::<Seq<char>>::empty(),
            forall|k: Seq<char>| #[trigger] incoming.members(k) == Set::<Seq<char>>::empty(),
        decreases files.len() - i,
    {
        assert(all.take(i + 1).drop_last() =~= all.take(i as int));
        assert(all.take(i + 1).last() == files@[i as int].deep_view());
        outgoing.add_key(files[i].path.as_str());
        incoming.add_key(files[i].path.as_str());
        i = i + 1;
    }
    assert(all.take(i as int) =~= all);
    let mut j: usize = 0;
    while j < edges.len()
        invariant
            j <= edges.len(),
            all == files.deep_view(),
            joins == edges.deep_view(),
            outgoing.wf(),
            incoming.wf(),
            outgoing.keys() == mentioned(all, joins.take(j as int)),
            incoming.keys() == mentioned(all, joins.take(j as int)),
            forall|k: Seq<char>| #[trigger]
                outgoing.members(k) == targets_of(joins.take(j as int), k),
            forall|k: Seq<char>| #[trigger]
                incoming.members(k) == sources_of(joins.take(j as int), k),
        decreases edges.len() - j,
    {
        let edge = &edges[j];
        assert(joins.take(j + 1).drop_last() =~= joins.take(j as int));
        assert(joins.take(j + 1).last() == edge.deep_view());
        let source = edge.source_path.as_str();
        let target = edge.target_path.as_str();
        outgoing.add(source, target);
        outgoing.add_key(target);
        incoming.add_key(source);
        incoming.add(target, source);
        j = j + 1;
    }
    assert(joins.take(j as int) =~= joins);
    let ghost paths = table::listing(mentioned(all, joins));
    proof {
        outgoing.sets.keys_are_dom();
        table::listing_of_ascending(outgoing.sets.keys.deep_view());
    }
    let mut by_path: TextMap<FileDependencyFan> = TextMap::new();
    let mut max_fan_in: u64 = 0;
    let mut max_fan_out: u64 = 0;
    let mut k: usize = 0;
    assert(paths.take(0).to_set() =~= Set::<Seq<char>>::empty());
    while k < outgoing.sets.keys.len()
        invariant
            k <= outgoing.sets.keys.len(),
            outgoing.wf(),
            incoming.wf(),
            paths == outgoing.sets.keys.deep_view(),
            forall|p: Seq<char>| #[trigger] outgoing.members(p) == targets_of(joins, p),
            forall|p: Seq<char>| #[trigger] incoming.members(p) == sources_of(joins, p),
            by_path.wf(),
            by_path@.dom() == paths.take(k as int).to_set(),
            forall|p: Seq<char>| #[trigger]
                by_path@.dom().contains(p) ==> by_path@[p] == fan_of(joins, p),
            max_fan_in == largest_fan_in(joins, paths.take(k as int)),
            max_fan_out == largest_fan_out(joins, paths.take(k as int)),
        decreases outgoing.sets.keys.len() - k,
    {
        let path = outgoing.sets.keys[k].as_str();
        let ghost shorter = paths.take(k as int);
        let ghost longer = paths.take(k + 1);
        proof {
            assert(longer.drop_last() =~= shorter);
            assert(longer.last() == path@);
            assert(longer =~= shorter.push(path@));
            assert(longer.to_set() =~= shorter.to_set().insert(path@)) by {
                assert forall|p: Seq<char>| longer.contains(p) <==> (shorter.contains(p) || p
                    == path@) by {
                    if shorter.contains(p) {
                        let n = choose|n: int| 0 <= n < shorter.len() && shorter[n] == p;
                        assert(longer[n] == p);
                    }
                    if p == path@ {
                        assert(longer[k as int] == p);
                    }
                    if longer.contains(p) {
                        let n = choose|n: int| 0 <= n < longer.len() && longer[n] == p;
                        if n < k {
                            assert(shorter[n] == p);
                        }
                    }
                }
            }
        }
        let fan_in: u64 = incoming.count(path) as u64;
        let fan_out: u64 = outgoing.count(path) as u64;
        if fan_in > max_fan_in {
            max_fan_in = fan_in;
        }
        if fan_out > max_fan_out {
            max_fan_out = fan_out;
        }
        by_path.insert(path, FileDependencyFan { fan_in, fan_out });
        assert(by_path@.dom() =~= longer.to_set());
        k = k + 1;
    }
    assert(paths.take(k as int) =~= paths);
    DependencyFanMetrics {
        by_path,
        dependency_edge_count: edges.len() as u64,
        max_fan_in,
        max_fan_out,
    }
}

/// The pairs of files that edges join, whatever their kinds.
pub open spec fn joined_pairs(edges: Seq<ResolvedDependencyEdgeView>) -> Set<
    (Seq<char>, Seq<char>),
>
    decreases edges.len(),
{
    if edges.len() == 0 {
        Set::empty()
    } else {
        joined_pairs(edges.drop_last()).insert(
            (edges.last().source_path, edges.last().target_path),
        )
    }
}

/// The number of dependencies of `paths` together.
pub open spec fn total_fan_out(
    edges: Seq<ResolvedDependencyEdgeView>,
    paths: Seq<Seq<char>>,
) -> nat
    decreases paths.len(),
{
    if paths.len() == 0 {
        0
    } else {
        total_fan_out(edges, paths.drop_last()) + targets_of(edges, paths.last()).len()
    }
}

/// The number of dependents of `paths` together.
pub open spec fn total_fan_in(
    edges: Seq<ResolvedDependencyEdgeView>,
    paths: Seq<Seq<char>>,
) -> nat
    decreases paths.len(),
{
    if paths.len() == 0 {
        0
    } else {
        total_fan_in(edges, paths.drop_last()) + sources_of(edges, paths.last()).len()
    }
}

proof fn pair_is_target(edges: Seq<ResolvedDependencyEdgeView>, a: Seq<char>, b: Seq<char>)
    ensures
        joined_pairs(edges).contains((a, b)) <==> targets_of(edges, a).contains(b),
        joined_pairs(edges).contains((a, b)) <==> sources_of(edges, b).contains(a),
        joined_pairs(edges).finite(),
    decreases edges.len(),
{
    if edges.len() > 0 {
        pair_is_target(edges.drop_last(), a, b);
    }
}

proof fn fan_out_grows(edges: Seq<ResolvedDependencyEdgeView>, paths: Seq<Seq<char>>)
    requires
        edges.len() > 0,
        paths.no_duplicates(),
    ensures
        total_fan_out(edges, paths) == total_fan_out(edges.drop_last(), paths) + if paths.contains(
            edges.last().source_path,
        ) && !joined_pairs(edges.drop_last()).contains(
            (edges.last().source_path, edges.last().target_path),
        ) {
            1int
        } else {
            0
        },
    decreases paths.len(),
{
    let front = edges.drop_last();
    let source = edges.last().source_path;
    if paths.len() > 0 {
        let fewer = paths.drop_last();
        fan_out_grows(edges, fewer);
        fan_is_bounded(front, paths.last());
        pair_is_target(front, source, edges.last().target_path);
        if paths.last() == source {
            assert(paths[paths.len() - 1] == source);
            assert(!fewer.contains(source));
        } else {
            assert(paths.contains(source) ==> fewer.contains(source)) by {
                if paths.contains(source) {
                    let n = choose|n: int| 0 <= n < paths.len() && paths[n] == source;
                    assert(fewer[n] == source);
                }
            }
            assert(fewer.contains(source) ==> paths.contains(source)) by {
                if fewer.contains(source) {
                    let n = choose|n: int| 0 <= n < fewer.len() && fewer[n] == source;
                    assert(paths[n] == source);
                }
            }
        }
    }
}

proof fn fan_in_grows(edges: Seq<ResolvedDependencyEdgeView>, paths: Seq<Seq<char>>)
    requires
        edges.len() > 0,
        paths.no_duplicates(),
    ensures
        total_fan_in(edges, paths) == total_fan_in(edges.drop_last(), paths) + if paths.contains(
            edges.last().target_path,
        ) && !joined_pairs(edges.drop_last()).contains(
            (edges.last().source_path, edges.last().target_path),
        ) {
            1int
        } else {
            0
        },
    decreases paths.len(),
{
    let front = edges.drop_last();
    let target = edges.last().target_path;
    if paths.len() > 0 {
        let fewer = paths.drop_last();
        fan_in_grows(edges, fewer);
        fan_is_bounded(front, paths.last());
        pair_is_target(front, edges.last().source_path, target);
        if paths.last() == target {
            assert(paths[paths.len() - 1] == target);
            assert(!fewer.contains(target));
        } else {
            assert(paths.contains(target) ==> fewer.contains(target)) by {
                if paths.contains(target) {
                    let n = choose|n: int| 0 <= n < paths.len() && paths[n] == target;
                    assert(fewer[n] == target);
                }
            }
            assert(fewer.contains(target) ==> paths.contains(target)) by {
                if fewer.contains(target) {
                    let n = choose|n: int| 0 <= n < fewer.len() && fewer[n] == target;
                    assert(paths[n] == target);
                }
            }
        }
    }
}

proof fn no_edges_no_fan(paths: Seq<Seq<char>>)
    ensures
        total_fan_out(Seq::empty(), paths) == 0,
        total_fan_in(Seq::empty(), paths) == 0,
    decreases paths.len(),
{
    if paths.len() > 0 {
        no_edges_no_fan(paths.drop_last());
    }
}

/// Over files that hold both ends of every edge, the dependencies and the dependents
/// add up to the same number: that of the pairs of files that are joined.
pub proof fn fan_in_and_fan_out_balance(
    edges: Seq<ResolvedDependencyEdgeView>,
    paths: Seq<Seq<char>>,
)
    requires
        paths.no_duplicates(),
        forall|i: int|
            0 <= i < edges.len() ==> paths.contains((#[trigger] edges[i]).source_path)
                && paths.contains(edges[i].target_path),
    ensures
        total_fan_in(edges, paths) == joined_pairs(edges).len(),
        total_fan_out(edges, paths) == joined_pairs(edges).len(),
    decreases edges.len(),
{
    if edges.len() == 0 {
        assert(edges =~= Seq::empty());
        no_edges_no_fan(paths);
    } else {
        let front = edges.drop_last();
        assert forall|i: int| 0 <= i < front.len() implies paths.contains(
            (#[trigger] front[i]).source_path,
        ) && paths.contains(front[i].target_path) by {
            assert(front[i] == edges[i]);
        }
        assert(paths.contains(edges[edges.len() - 1].source_path));
        fan_in_and_fan_out_balance(front, paths);
        fan_out_grows(edges, paths);
        fan_in_grows(edges, paths);
        pair_is_target(front, edges.last().source_path, edges.last().target_path);
    }
}

} // verus!
