//! What the control flow of functions is, and how complex it makes them.

use vstd::prelude::*;

use crate::languages::go;
use crate::languages::laws;
use crate::languages::metrics;
use crate::languages::metrics::CodeMetrics;
use crate::languages::{
    FlowView, FunctionView, UniversalControlFlowKind, UniversalControlFlowNode, UniversalFunction,
};
use crate::syntax;
use crate::syntax::{NodeTest, SyntaxNodeView};
use crate::text;

verus! {

/// Whether `part` stands somewhere in `s`.
pub open spec fn holds(s: Seq<char>, part: Seq<char>) -> bool {
    exists|i: int|
        0 <= i <= s.len() - part.len() && #[trigger] s.subrange(i, i + part.len()) == part
}

/// Whether a node steers the control flow in a way.
pub open spec fn steers(
    source: Seq<u8>,
    node: SyntaxNodeView,
    kind: UniversalControlFlowKind,
) -> bool {
    match kind {
        UniversalControlFlowKind::Branch => node.kind == "if_statement"@,
        UniversalControlFlowKind::Loop => node.kind == "for_statement"@,
        UniversalControlFlowKind::Switch => node.kind == "select_statement"@ || node.kind == "expression_switch_statement"@ || node.kind == "type_switch_statement"@,
        UniversalControlFlowKind::Case => node.kind == "default_case"@ || node.kind == "expression_case"@ || node.kind == "type_case"@ || node.kind == "communication_case"@,
        UniversalControlFlowKind::BooleanChain => node.kind == "binary_expression"@ && exists|
            s: Seq<char>,
        | #[trigger]
            laws::is_written(source, node, s) && laws::is_trim(s) && (holds(s, "&&"@) || holds(
                s,
                "||"@,
            )),
        UniversalControlFlowKind::Jump => node.kind == "goto_statement"@ || node.kind == "break_statement"@ || node.kind == "continue_statement"@,
    }
}

/// How a node steers the control flow, if it does.
pub open spec fn steering(source: Seq<u8>, node: SyntaxNodeView) -> Option<
    UniversalControlFlowKind,
> {
    if steers(source, node, UniversalControlFlowKind::Branch) {
        Some(UniversalControlFlowKind::Branch)
    } else if steers(source, node, UniversalControlFlowKind::Loop) {
        Some(UniversalControlFlowKind::Loop)
    } else if steers(source, node, UniversalControlFlowKind::Switch) {
        Some(UniversalControlFlowKind::Switch)
    } else if steers(source, node, UniversalControlFlowKind::Case) {
        Some(UniversalControlFlowKind::Case)
    } else if steers(source, node, UniversalControlFlowKind::BooleanChain) {
        Some(UniversalControlFlowKind::BooleanChain)
    } else if steers(source, node, UniversalControlFlowKind::Jump) {
        Some(UniversalControlFlowKind::Jump)
    } else {
        None
    }
}

/// Whether comparisons are written without white space around them.
pub open spec fn comparisons_are_trim(nodes: Seq<SyntaxNodeView>, source: Seq<u8>) -> bool {
    forall|m: int|
        0 <= m < nodes.len() && (#[trigger] nodes[m]).kind == "binary_expression"@ ==> exists|
            s: Seq<char>,
        | #[trigger]
            laws::is_written(source, nodes[m], s) && laws::is_trim(s)
}

proof fn steering_is_flow(nodes: Seq<SyntaxNodeView>, source: Seq<u8>, i: int)
    requires
        0 <= i < nodes.len(),
        comparisons_are_trim(nodes, source),
    ensures
        go::flow_kind_of(source, nodes[i]) == steering(source, nodes[i]),
{
    if nodes[i].kind == "binary_expression"@ {
        let s = choose|s: Seq<char>| #[trigger]
            laws::is_written(source, nodes[i], s) && laws::is_trim(s);
        let none = Seq::<char>::empty();
        text::trimming_leaves_what_is_inside(none, s, none);
        assert(none + s + none =~= s);
        assert(go::trimmed_text(source, nodes[i]) == Some(s));
        assert(go::is_chain(source, nodes[i]) == (holds(s, "&&"@) || holds(s, "||"@)));
        assert(steers(source, nodes[i], UniversalControlFlowKind::BooleanChain) == (holds(s, "&&"@)
            || holds(s, "||"@)));
    }
}

/// The kinds of a node of control flow and of all inside it, in the order in which they start.
pub open spec fn kinds_of(flow: FlowView) -> Seq<UniversalControlFlowKind>
    decreases flow, 0int,
{
    seq![flow.kind] + kinds_up_to(flow.children, flow.children.len() as int)
}

/// The kinds of the first `n` nodes of control flow and of all inside them.
pub open spec fn kinds_up_to(flows: Seq<FlowView>, n: int) -> Seq<UniversalControlFlowKind>
    decreases flows, n,
{
    if 0 < n <= flows.len() {
        kinds_up_to(flows, n - 1) + kinds_of(flows[n - 1])
    } else {
        Seq::empty()
    }
}

/// The kinds of nodes of control flow and of all inside them.
pub open spec fn all_kinds(flows: Seq<FlowView>) -> Seq<UniversalControlFlowKind> {
    kinds_up_to(flows, flows.len() as int)
}

/// The kinds of nodes of control flow alone.
pub open spec fn outer_kinds(flows: Seq<FlowView>) -> Seq<UniversalControlFlowKind> {
    flows.map_values(|flow: FlowView| flow.kind)
}

/// How the nodes from `i` to `end` steer, in order; nothing is looked for inside a jump.
pub open spec fn steerings(
    nodes: Seq<SyntaxNodeView>,
    source: Seq<u8>,
    i: int,
    end: int,
) -> Seq<UniversalControlFlowKind>
    decreases end - i,
{
    if i >= end {
        Seq::empty()
    } else {
        match steering(source, nodes[i]) {
            Some(UniversalControlFlowKind::Jump) => if i < syntax::end_of(nodes, i) <= end {
                seq![UniversalControlFlowKind::Jump] + steerings(
                    nodes,
                    source,
                    syntax::end_of(nodes, i),
                    end,
                )
            } else {
                Seq::empty()
            },
            Some(kind) => seq![kind] + steerings(nodes, source, i + 1, end),
            None => steerings(nodes, source, i + 1, end),
        }
    }
}

/// How those of the nodes from `i` to `end` steer that stand inside no other of them that steers.
pub open spec fn outer_steerings(
    nodes: Seq<SyntaxNodeView>,
    source: Seq<u8>,
    i: int,
    end: int,
) -> Seq<UniversalControlFlowKind>
    decreases end - i,
{
    if i >= end {
        Seq::empty()
    } else {
        match steering(source, nodes[i]) {
            Some(kind) => if i < syntax::end_of(nodes, i) <= end {
                seq![kind] + outer_steerings(nodes, source, syntax::end_of(nodes, i), end)
            } else {
                Seq::empty()
            },
            None => outer_steerings(nodes, source, i + 1, end),
        }
    }
}

proof fn kinds_of_front(a: Seq<FlowView>, b: Seq<FlowView>, n: int)
    requires
        0 <= n <= a.len(),
    ensures
        kinds_up_to(a + b, n) == kinds_up_to(a, n),
    decreases n,
{
    if n > 0 {
        kinds_of_front(a, b, n - 1);
        assert((a + b)[n - 1] == a[n - 1]);
    }
}

proof fn kinds_of_both(a: Seq<FlowView>, b: Seq<FlowView>, n: int)
    requires
        0 <= n <= b.len(),
    ensures
        kinds_up_to(a + b, a.len() + n) == all_kinds(a) + kinds_up_to(b, n),
    decreases n,
{
    if n > 0 {
        kinds_of_both(a, b, n - 1);
        assert((a + b)[a.len() + n - 1] == b[n - 1]);
        assert(all_kinds(a) + (kinds_up_to(b, n - 1) + kinds_of(b[n - 1])) =~= (all_kinds(a)
            + kinds_up_to(b, n - 1)) + kinds_of(b[n - 1]));
    } else {
        kinds_of_front(a, b, a.len() as int);
        assert(all_kinds(a) + kinds_up_to(b, 0) =~= all_kinds(a));
    }
}

proof fn steerings_part(
    nodes: Seq<SyntaxNodeView>,
    source: Seq<u8>,
    j: int,
    i: int,
    end: int,
)
    requires
        0 <= j < i <= syntax::end_of(nodes, j) <= end <= nodes.len(),
        j < nodes.len(),
    ensures
        steerings(nodes, source, i, end) == steerings(nodes, source, i, syntax::end_of(nodes, j))
            + steerings(nodes, source, syntax::end_of(nodes, j), end),
        outer_steerings(nodes, source, i, end) == outer_steerings(
            nodes,
            source,
            i,
            syntax::end_of(nodes, j),
        ) + outer_steerings(nodes, source, syntax::end_of(nodes, j), end),
    decreases end - i,
{
    let mid = syntax::end_of(nodes, j);
    if i == mid {
        assert(Seq::<UniversalControlFlowKind>::empty() + steerings(nodes, source, mid, end)
            =~= steerings(nodes, source, mid, end));
        assert(Seq::<UniversalControlFlowKind>::empty() + outer_steerings(nodes, source, mid, end)
            =~= outer_steerings(nodes, source, mid, end));
    } else {
        go::inner_nodes_end_before(nodes, j, i);
        let after = syntax::end_of(nodes, i);
        syntax::end_from_bounds(nodes, nodes[i].depth, i + 1);
        steerings_part(nodes, source, j, i + 1, end);
        steerings_part(nodes, source, j, after, end);
        if let Some(kind) = steering(source, nodes[i]) {
            assert(seq![kind] + (steerings(nodes, source, i + 1, mid) + steerings(
                nodes,
                source,
                mid,
                end,
            )) =~= (seq![kind] + steerings(nodes, source, i + 1, mid)) + steerings(
                nodes,
                source,
                mid,
                end,
            ));
            assert(seq![kind] + (steerings(nodes, source, after, mid) + steerings(
                nodes,
                source,
                mid,
                end,
            )) =~= (seq![kind] + steerings(nodes, source, after, mid)) + steerings(
                nodes,
                source,
                mid,
                end,
            ));
            assert(seq![kind] + (outer_steerings(nodes, source, after, mid) + outer_steerings(
                nodes,
                source,
                mid,
                end,
            )) =~= (seq![kind] + outer_steerings(nodes, source, after, mid)) + outer_steerings(
                nodes,
                source,
                mid,
                end,
            ));
        }
    }
}

proof fn kinds_of_one(flow: FlowView)
    ensures
        all_kinds(seq![flow]) == kinds_of(flow),
{
    reveal_with_fuel(kinds_up_to, 2);
    assert(kinds_up_to(seq![flow], 0) =~= Seq::empty());
    assert(Seq::empty() + kinds_of(flow) =~= kinds_of(flow));
}

proof fn flow_of_node(nodes: Seq<SyntaxNodeView>, source: Seq<u8>, i: int)
    requires
        0 <= i < nodes.len(),
        comparisons_are_trim(nodes, source),
    ensures
        all_kinds(go::flow_at(nodes, source, i)) == steerings(
            nodes,
            source,
            i,
            syntax::end_of(nodes, i),
        ),
        outer_kinds(go::flow_at(nodes, source, i)) == outer_steerings(
            nodes,
            source,
            i,
            syntax::end_of(nodes, i),
        ),
    decreases syntax::end_of(nodes, i) - i, 0int,
{
    let end = syntax::end_of(nodes, i);
    syntax::end_from_bounds(nodes, nodes[i].depth, i + 1);
    steering_is_flow(nodes, source, i);
    flow_of_siblings(nodes, source, i, i + 1);
    let inner = go::flows_between(nodes, source, i + 1, end);
    match steering(source, nodes[i]) {
        Some(UniversalControlFlowKind::Jump) => {
            let flow = FlowView { kind: UniversalControlFlowKind::Jump, children: Seq::empty() };
            kinds_of_one(flow);
            assert(kinds_up_to(flow.children, 0) =~= Seq::empty());
            assert(all_kinds(seq![flow]) =~= seq![UniversalControlFlowKind::Jump]);
            assert(steerings(nodes, source, end, end) =~= Seq::empty());
            assert(seq![UniversalControlFlowKind::Jump] + Seq::empty() =~= seq![
                UniversalControlFlowKind::Jump,
            ]);
            assert(outer_kinds(seq![flow]) =~= seq![UniversalControlFlowKind::Jump]);
            assert(outer_steerings(nodes, source, end, end) =~= Seq::empty());
        },
        Some(kind) => {
            let flow = FlowView { kind, children: inner };
            kinds_of_one(flow);
            assert(outer_kinds(seq![flow]) =~= seq![kind]);
            assert(outer_steerings(nodes, source, end, end) =~= Seq::empty());
            assert(seq![kind] + Seq::empty() =~= seq![kind]);
        },
        None => {},
    }
}

proof fn flow_of_siblings(nodes: Seq<SyntaxNodeView>, source: Seq<u8>, i: int, j: int)
    requires
        0 <= i < j <= syntax::end_of(nodes, i),
        i < nodes.len(),
        comparisons_are_trim(nodes, source),
    ensures
        all_kinds(go::flows_between(nodes, source, j, syntax::end_of(nodes, i))) == steerings(
            nodes,
            source,
            j,
            syntax::end_of(nodes, i),
        ),
        outer_kinds(go::flows_between(nodes, source, j, syntax::end_of(nodes, i)))
            == outer_steerings(nodes, source, j, syntax::end_of(nodes, i)),
    decreases syntax::end_of(nodes, i) - j, 1int,
{
    let end = syntax::end_of(nodes, i);
    syntax::end_from_bounds(nodes, nodes[i].depth, i + 1);
    if j < end {
        go::inner_nodes_end_before(nodes, i, j);
        syntax::end_from_bounds(nodes, nodes[j].depth, j + 1);
        let after = syntax::end_of(nodes, j);
        flow_of_node(nodes, source, j);
        flow_of_siblings(nodes, source, i, after);
        let here = go::flow_at(nodes, source, j);
        let rest = go::flows_between(nodes, source, after, end);
        kinds_of_both(here, rest, rest.len() as int);
        assert(outer_kinds(here + rest) =~= outer_kinds(here) + outer_kinds(rest));
        steering_is_flow(nodes, source, j);
        steerings_part(nodes, source, j, j + 1, end);
        steerings_part(nodes, source, j, after, end);
        if let Some(kind) = steering(source, nodes[j]) {
            assert(seq![kind] + (steerings(nodes, source, j + 1, after) + steerings(
                nodes,
                source,
                after,
                end,
            )) =~= (seq![kind] + steerings(nodes, source, j + 1, after)) + steerings(
                nodes,
                source,
                after,
                end,
            ));
            assert((seq![kind] + Seq::empty()) + steerings(nodes, source, after, end) =~= seq![kind]
                + steerings(nodes, source, after, end));
            assert((seq![kind] + Seq::empty()) + outer_steerings(nodes, source, after, end)
                =~= seq![kind] + outer_steerings(nodes, source, after, end));
        }
    } else {
        assert(outer_kinds(go::flows_between(nodes, source, j, end)) =~= Seq::empty());
    }
}

/// The control flow of a function directly inside the root is made of the nodes of its body that
/// steer it, in order: each once, and those inside no other at the top.
pub proof fn functions_have_the_flow_of_their_body(
    flawed: bool,
    nodes: Seq<SyntaxNodeView>,
    source: Seq<u8>,
    a: int,
    c: int,
    name: Seq<char>,
    b: int,
) -> (function: FunctionView)
    requires
        syntax::is_tree(nodes),
        0 < a < nodes.len(),
        nodes[a].depth == 1,
        nodes[a].kind == "function_declaration"@ || nodes[a].kind == "method_declaration"@,
        laws::is_field(nodes, a, c, "name"@),
        laws::is_written(source, nodes[c], name),
        laws::is_trim(name),
        laws::is_field(nodes, a, b, "body"@),
        comparisons_are_trim(nodes, source),
    ensures
        laws::parsed(flawed, nodes, source).functions.contains(function),
        function.name == name,
        all_kinds(function.control_flow) == steerings(nodes, source, b, syntax::end_of(nodes, b)),
        outer_kinds(function.control_flow) == outer_steerings(
            nodes,
            source,
            b,
            syntax::end_of(nodes, b),
        ),
{
    laws::go_words();
    laws::field_text(nodes, source, a, c, name);
    syntax::end_from_bounds(nodes, nodes[a].depth, a + 1);
    assert forall|m: int| a < m < b && (#[trigger] nodes[m]).depth == nodes[a].depth
        + 1 implies !syntax::passes(nodes[m], NodeTest::BodyField) by {}
    syntax::first_child_is_found(nodes, a, b, NodeTest::BodyField);
    flow_of_node(nodes, source, b);
    let kind = go::function_kind_of(nodes[a].kind)->0;
    let function = FunctionView { name, kind, control_flow: go::function_flow(nodes, source, a) };
    let here = go::facts_from(nodes, source, a);
    assert(here.functions[0] == function);
    assert(here.functions.contains(function));
    laws::top_level_is_reached(nodes, source, 1, a);
    function
}

/// A function without a body has no control flow.
pub proof fn functions_without_a_body_have_no_flow(
    flawed: bool,
    nodes: Seq<SyntaxNodeView>,
    source: Seq<u8>,
    a: int,
    c: int,
    name: Seq<char>,
) -> (function: FunctionView)
    requires
        syntax::is_tree(nodes),
        0 < a < nodes.len(),
        nodes[a].depth == 1,
        nodes[a].kind == "function_declaration"@ || nodes[a].kind == "method_declaration"@,
        laws::is_field(nodes, a, c, "name"@),
        laws::is_written(source, nodes[c], name),
        laws::is_trim(name),
        forall|m: int|
            a < m < syntax::end_of(nodes, a) ==> (#[trigger] nodes[m]).field != Some("body"@),
    ensures
        laws::parsed(flawed, nodes, source).functions.contains(function),
        function.name == name,
        function.control_flow.len() == 0,
{
    laws::go_words();
    laws::field_text(nodes, source, a, c, name);
    syntax::end_from_bounds(nodes, nodes[a].depth, a + 1);
    laws::no_child_is_found(nodes, a, NodeTest::BodyField);
    let kind = go::function_kind_of(nodes[a].kind)->0;
    let function = FunctionView { name, kind, control_flow: go::function_flow(nodes, source, a) };
    let here = go::facts_from(nodes, source, a);
    assert(here.functions[0] == function);
    assert(here.functions.contains(function));
    laws::top_level_is_reached(nodes, source, 1, a);
    function
}

/// Whether a node makes what stands inside it harder to read.
pub open spec fn is_nesting(kind: UniversalControlFlowKind) -> bool {
    kind != UniversalControlFlowKind::BooleanChain && kind != UniversalControlFlowKind::Jump
}

/// The nodes that make others harder to read, of a node and of all inside it.
pub open spec fn nestings_in(node: UniversalControlFlowNode) -> nat
    decreases node, 0int,
{
    (if is_nesting(node.kind) {
        1nat
    } else {
        0
    }) + nestings_up_to(node.children@, node.children@.len() as int)
}

/// The nodes that make others harder to read, of the first `n` nodes and of all inside them.
pub open spec fn nestings_up_to(nodes: Seq<UniversalControlFlowNode>, n: int) -> nat
    decreases nodes, n,
{
    if 0 < n <= nodes.len() {
        nestings_up_to(nodes, n - 1) + nestings_in(nodes[n - 1])
    } else {
        0
    }
}

proof fn deeper_nodes_weigh_more(node: UniversalControlFlowNode, nesting: nat)
    ensures
        metrics::node_points(node, nesting + 1) == metrics::node_points(node, nesting)
            + nestings_in(node),
    decreases node, 0int,
{
    deeper_flows_weigh_more(
        node.children@,
        node.children@.len() as int,
        metrics::inner_nesting(node.kind, nesting),
    );
}

proof fn deeper_flows_weigh_more(nodes: Seq<UniversalControlFlowNode>, n: int, nesting: nat)
    ensures
        metrics::points_up_to(nodes, n, nesting + 1) == metrics::points_up_to(nodes, n, nesting)
            + nestings_up_to(nodes, n),
    decreases nodes, n,
{
    if 0 < n <= nodes.len() {
        deeper_flows_weigh_more(nodes, n - 1, nesting);
        deeper_nodes_weigh_more(nodes[n - 1], nesting);
    }
}

proof fn points_of_one(function: UniversalFunction)
    ensures
        metrics::total_points(seq![function]) == metrics::function_points(function),
        metrics::largest_points(seq![function]) == metrics::function_points(function),
{
    assert(seq![function].drop_last() =~= Seq::empty());
    reveal_with_fuel(metrics::total_points, 2);
    reveal_with_fuel(metrics::largest_points, 2);
}

/// A function without control flow is not complex.
pub proof fn straight_functions_are_not_complex(function: UniversalFunction)
    requires
        function.control_flow@.len() == 0,
    ensures
        metrics::metrics_of(seq![function]) == (CodeMetrics {
            cognitive_complexity: 0,
            max_function_complexity: 0,
        }),
{
    points_of_one(function);
}

/// What a function adds to the complexity of its file is its own; the largest is that of the most
/// complex function.
pub proof fn functions_add_their_complexity(
    functions: Seq<UniversalFunction>,
    function: UniversalFunction,
)
    requires
        metrics::metrics_of(functions.push(function)).cognitive_complexity < u64::MAX,
    ensures
        ({
            let all = metrics::metrics_of(functions.push(function));
            let before = metrics::metrics_of(functions);
            let own = metrics::metrics_of(seq![function]);
            &&& all.cognitive_complexity == before.cognitive_complexity + own.cognitive_complexity
            &&& all.max_function_complexity >= before.max_function_complexity
            &&& all.max_function_complexity >= own.cognitive_complexity
            &&& all.max_function_complexity == before.max_function_complexity
                || all.max_function_complexity == own.cognitive_complexity
        }),
{
    points_of_one(function);
    let all = functions.push(function);
    assert(all.drop_last() =~= functions);
    metrics::largest_within_total(functions);
    metrics::largest_within_total(all);
}

/// A node behind others adds the complexity that it has alone.
pub proof fn nodes_add_their_complexity(
    both: UniversalFunction,
    front: UniversalFunction,
    last: UniversalFunction,
)
    requires
        last.control_flow@.len() == 1,
        both.control_flow@ == front.control_flow@ + last.control_flow@,
        metrics::metrics_of(seq![both]).cognitive_complexity < u64::MAX,
    ensures
        metrics::metrics_of(seq![both]).cognitive_complexity == metrics::metrics_of(
            seq![front],
        ).cognitive_complexity + metrics::metrics_of(seq![last]).cognitive_complexity,
{
    points_of_one(both);
    points_of_one(front);
    points_of_one(last);
    let a = front.control_flow@;
    let b = last.control_flow@;
    points_of_front(a, b, a.len() as int);
    assert(both.control_flow@.len() == a.len() + 1);
    assert((a + b)[a.len() as int] == b[0]);
    reveal_with_fuel(metrics::points_up_to, 2);
}

proof fn points_of_front(
    a: Seq<UniversalControlFlowNode>,
    b: Seq<UniversalControlFlowNode>,
    n: int,
)
    requires
        0 <= n <= a.len(),
    ensures
        metrics::points_up_to(a + b, n, 0) == metrics::points_up_to(a, n, 0),
    decreases n,
{
    if n > 0 {
        points_of_front(a, b, n - 1);
        assert((a + b)[n - 1] == a[n - 1]);
    }
}

/// A single node adds one to what stands inside it; where it makes that harder to read, each node
/// inside that does so too adds one more.
pub proof fn nodes_weigh_on_what_is_inside(outer: UniversalFunction, inner: UniversalFunction)
    requires
        outer.control_flow@.len() == 1,
        outer.control_flow@[0].children@ == inner.control_flow@,
        metrics::metrics_of(seq![outer]).cognitive_complexity < u64::MAX,
    ensures
        metrics::metrics_of(seq![outer]).cognitive_complexity == 1 + metrics::metrics_of(
            seq![inner],
        ).cognitive_complexity + if is_nesting(outer.control_flow@[0].kind) {
            nestings_up_to(inner.control_flow@, inner.control_flow@.len() as int)
        } else {
            0
        },
{
    points_of_one(outer);
    points_of_one(inner);
    let node = outer.control_flow@[0];
    reveal_with_fuel(metrics::points_up_to, 2);
    assert(metrics::function_points(outer) == metrics::node_points(node, 0));
    deeper_flows_weigh_more(inner.control_flow@, inner.control_flow@.len() as int, 0);
}

} // verus!
