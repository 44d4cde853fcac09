//! How complex functions are to read, by their control flow.

use vstd::prelude::*;

use crate::languages::{
    UniversalCodeMetricsInput, UniversalControlFlowKind, UniversalControlFlowNode,
    UniversalFunction,
};

verus! {

/// How complex the functions of a file are.
#[derive(Debug, Clone, Copy, PartialEq, Eq, Structural)]
pub struct CodeMetrics {
    /// The complexity of all functions together.
    pub cognitive_complexity: u64,
    /// The complexity of the most complex function.
    pub max_function_complexity: u64,
}

/// Computes how complex functions are.
#[derive(Debug, Clone, Copy, PartialEq, Eq, Structural)]
pub struct CodeMetricsAnalyzer;

/// `n`, or the largest number that can be held.
pub open spec fn capped(n: nat) -> u64 {
    if n <= u64::MAX {
        n as u64
    } else {
        u64::MAX
    }
}

/// Whether what stands inside is nested.
pub open spec fn nests(kind: UniversalControlFlowKind) -> bool {
    match kind {
        UniversalControlFlowKind::Branch => true,
        UniversalControlFlowKind::Loop => true,
        UniversalControlFlowKind::Switch => true,
        UniversalControlFlowKind::Case => true,
        UniversalControlFlowKind::BooleanChain => false,
        UniversalControlFlowKind::Jump => false,
    }
}

/// What a node adds by itself: what nests others counts for more the deeper it stands.
pub open spec fn own_points(kind: UniversalControlFlowKind, nesting: nat) -> nat {
    if nests(kind) {
        1 + nesting
    } else {
        1
    }
}

/// How deep what stands inside a node is nested.
pub open spec fn inner_nesting(kind: UniversalControlFlowKind, nesting: nat) -> nat {
    if nests(kind) {
        nesting + 1
    } else {
        nesting
    }
}

/// What a node and what stands inside it add.
pub open spec fn node_points(node: UniversalControlFlowNode, nesting: nat) -> nat
    decreases node, 0int,
{
    own_points(node.kind, nesting) + points_up_to(
        node.children@,
        node.children@.len() as int,
        inner_nesting(node.kind, nesting),
    )
}

/// What the first `n` nodes add.
pub open spec fn points_up_to(nodes: Seq<UniversalControlFlowNode>, n: int, nesting: nat) -> nat
    decreases nodes, n,
{
    if 0 < n <= nodes.len() {
        points_up_to(nodes, n - 1, nesting) + node_points(nodes[n - 1], nesting)
    } else {
        0
    }
}

/// How complex a function is.
pub open spec fn function_points(function: UniversalFunction) -> nat {
    points_up_to(function.control_flow@, function.control_flow@.len() as int, 0)
}

/// How complex functions are together.
pub open spec fn total_points(functions: Seq<UniversalFunction>) -> nat
    decreases functions.len(),
{
    if functions.len() == 0 {
        0
    } else {
        total_points(functions.drop_last()) + function_points(functions.last())
    }
}

/// How complex the most complex function is.
pub open spec fn largest_points(functions: Seq<UniversalFunction>) -> nat
    decreases functions.len(),
{
    if functions.len() == 0 {
        0
    } else {
        let before = largest_points(functions.drop_last());
        if function_points(functions.last()) > before {
            function_points(functions.last())
        } else {
            before
        }
    }
}

/// How complex the functions of a file are.
pub open spec fn metrics_of(functions: Seq<UniversalFunction>) -> CodeMetrics {
    CodeMetrics {
        cognitive_complexity: capped(total_points(functions)),
        max_function_complexity: capped(largest_points(functions)),
    }
}

/// No function is more complex than its file, and none than the most complex one.
pub proof fn no_function_outweighs_its_file(functions: Seq<UniversalFunction>, i: int)
    requires
        0 <= i < functions.len(),
    ensures
        function_points(functions[i]) <= largest_points(functions),
        largest_points(functions) <= total_points(functions),
    decreases functions.len(),
{
    largest_within_total(functions);
    if i < functions.len() - 1 {
        no_function_outweighs_its_file(functions.drop_last(), i);
    }
}

pub proof fn largest_within_total(functions: Seq<UniversalFunction>)
    ensures
        largest_points(functions) <= total_points(functions),
    decreases functions.len(),
{
    if functions.len() > 0 {
        largest_within_total(functions.drop_last());
    }
}

fn sum(a: u64, b: u64) -> (n: u64)
    ensures
        n == capped((a + b) as nat),
{
    if a <= u64::MAX - b {
        a + b
    } else {
        u64::MAX
    }
}

fn nests_inside(kind: UniversalControlFlowKind) -> (r: bool)
    ensures
        r == nests(kind),
{
    match kind {
        UniversalControlFlowKind::Branch => true,
        UniversalControlFlowKind::Loop => true,
        UniversalControlFlowKind::Switch => true,
        UniversalControlFlowKind::Case => true,
        UniversalControlFlowKind::BooleanChain => false,
        UniversalControlFlowKind::Jump => false,
    }
}

fn score_node(node: &UniversalControlFlowNode, nesting: u64, Ghost(depth): Ghost<nat>) -> (n: u64)
    requires
        nesting == capped(depth),
    ensures
        n == capped(node_points(*node, depth)),
    decreases node, 0int,
{
    if nests_inside(node.kind) {
        let deeper: u64 = sum(nesting, 1);
        sum(deeper, score_nodes(&node.children, node.children.len(), deeper, Ghost(depth + 1)))
    } else {
        sum(1, score_nodes(&node.children, node.children.len(), nesting, Ghost(depth)))
    }
}

fn score_nodes(
    nodes: &Vec<UniversalControlFlowNode>,
    count: usize,
    nesting: u64,
    Ghost(depth): Ghost<nat>,
) -> (n: u64)
    requires
        count <= nodes@.len(),
        nesting == capped(depth),
    ensures
        n == capped(points_up_to(nodes@, count as int, depth)),
    decreases nodes@, count as int,
{
    if count == 0 {
        return 0;
    }
    let before: u64 = score_nodes(nodes, count - 1, nesting, Ghost(depth));
    sum(before, score_node(&nodes[count - 1], nesting, Ghost(depth)))
}

impl CodeMetricsAnalyzer {
    /// An analyzer.
    pub fn new() -> (out: CodeMetricsAnalyzer)
        ensures
            out == CodeMetricsAnalyzer,
    {
        CodeMetricsAnalyzer
    }

    /// How complex the functions of a file are.
    pub fn analyze(&self, input: &UniversalCodeMetricsInput) -> (out: CodeMetrics)
        ensures
            out == (CodeMetrics {
                cognitive_complexity: capped(total_points(input.functions@)),
                max_function_complexity: capped(largest_points(input.functions@)),
            }),
            out == metrics_of(input.functions@),
    {
        let ghost all = input.functions@;
        let mut total: u64 = 0;
        let mut largest: u64 = 0;
        let mut i: usize = 0;
        while i < input.functions.len()
            invariant
                i <= input.functions.len(),
                all == input.functions@,
                total == capped(total_points(all.take(i as int))),
                largest == capped(largest_points(all.take(i as int))),
            decreases input.functions.len() - i,
        {
            assert(all.take(i + 1).drop_last() =~= all.take(i as int));
            assert(all.take(i + 1).last() == input.functions@[i as int]);
            let flow = &input.functions[i].control_flow;
            let own: u64 = score_nodes(flow, flow.len(), 0, Ghost(0));
            total = sum(total, own);
            if own > largest {
                largest = own;
            }
            i = i + 1;
        }
        assert(all.take(i as int) =~= all);
        CodeMetrics { cognitive_complexity: total, max_function_complexity: largest }
    }
}

} // verus!
