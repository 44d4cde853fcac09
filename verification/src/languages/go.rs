//! Go sources: symbols, imports and control flow.

use vstd::prelude::*;

use crate::languages;
use crate::languages::{
    AnalyzedFile, AnalyzedFileView, FlowView, FunctionView, LanguageParser, ParserDiagnostic,
    ParserDiagnosticView, ParserLimitation, ParserLimitationView, ParserOutput, ParserOutputView,
    ParserRecognition, UniversalCodeMetricsInput, UniversalControlFlowKind,
    UniversalControlFlowNode, UniversalFunction, UniversalFunctionKind, UniversalReference,
    UniversalReferenceView, UniversalSymbol, UniversalSymbolView,
};
use crate::scan;
use crate::scan::ContentKind;
use crate::syntax;
use crate::syntax::{
    NodeTest, ParseOutcome, ParseOutcomeView, SupportedLanguage, SyntaxNode, SyntaxNodeView,
};
use crate::text;

verus! {

/// The text of a node without white space around it, where something is left.
pub open spec fn trimmed_text(source: Seq<u8>, node: SyntaxNodeView) -> Option<Seq<char>> {
    match syntax::text_of(source, node) {
        Some(s) => if text::trimmed(s).len() == 0 {
            None
        } else {
            Some(text::trimmed(s))
        },
        None => None,
    }
}

fn node_text(source: &[u8], node: &SyntaxNode) -> (out: Option<String>)
    ensures
        out.deep_view() == trimmed_text(source@, node.deep_view()),
{
    match syntax::node_text(source, node) {
        Some(s) => {
            let trimmed = text::trim(s.as_str());
            if trimmed.as_str().is_empty() {
                None
            } else {
                Some(trimmed)
            }
        },
        None => None,
    }
}

/// A string literal without its quotes.
pub open spec fn bare_literal(literal: Seq<char>) -> Seq<char> {
    let unquoted = text::strip_end(text::strip_start(literal, '"'), '"');
    text::strip_end(text::strip_start(unquoted, '`'), '`')
}

fn strip_go_string_literal(value: &str) -> (out: String)
    ensures
        out@ == bare_literal(value@),
{
    let opened = text::trim_start_char(value, '"');
    let unquoted = text::trim_end_char(opened.as_str(), '"');
    let raw = text::trim_start_char(unquoted.as_str(), '`');
    text::trim_end_char(raw.as_str(), '`')
}

/// What node `i`, an import, imports.
pub open spec fn import_target_of(tree: Seq<SyntaxNodeView>, source: Seq<u8>, i: int) -> Option<
    Seq<char>,
> {
    match syntax::child_of(tree, i, NodeTest::GoStringLiteral) {
        Some(j) => match trimmed_text(source, tree[j]) {
            Some(literal) => Some(bare_literal(literal)),
            None => None,
        },
        None => None,
    }
}

fn import_target(nodes: &[SyntaxNode], source: &[u8], i: usize) -> (out: Option<String>)
    requires
        i < nodes.len(),
    ensures
        out.deep_view() == import_target_of(nodes.deep_view(), source@, i as int),
{
    match syntax::find_child(nodes, i, NodeTest::GoStringLiteral) {
        Some(j) => match node_text(source, &nodes[j]) {
            Some(literal) => Some(strip_go_string_literal(literal.as_str())),
            None => None,
        },
        None => None,
    }
}

/// The imports among the nodes from `j` to `end`.
pub open spec fn imports_from(
    tree: Seq<SyntaxNodeView>,
    source: Seq<u8>,
    j: int,
    end: int,
) -> Seq<UniversalReferenceView>
    decreases tree.len() - j,
{
    if j < 0 || j >= end || j >= tree.len() || !(j < syntax::end_of(tree, j) <= tree.len()) {
        Seq::empty()
    } else if tree[j].kind == "import_spec"@ {
        let rest = imports_from(tree, source, syntax::end_of(tree, j), end);
        match import_target_of(tree, source, j) {
            Some(target) => seq![UniversalReferenceView { target, kind: "import"@ }] + rest,
            None => rest,
        }
    } else {
        imports_from(tree, source, j + 1, end)
    }
}

fn collect_imports(
    nodes: &[SyntaxNode],
    source: &[u8],
    i: usize,
    references: &mut Vec<UniversalReference>,
)
    requires
        i < nodes.len(),
    ensures
        final(references).deep_view() == old(references).deep_view() + imports_from(
            nodes.deep_view(),
            source@,
            i + 1,
            syntax::end_of(nodes.deep_view(), i as int),
        ),
{
    let ghost tree = nodes.deep_view();
    let ghost start = references.deep_view();
    let end: usize = syntax::end_index(nodes, i);
    let ghost whole = imports_from(tree, source@, i + 1, end as int);
    let mut j: usize = i + 1;
    while j < end
        invariant
            end <= nodes.len(),
            tree == nodes.deep_view(),
            start + whole == references.deep_view() + imports_from(
                tree,
                source@,
                j as int,
                end as int,
            ),
        decreases nodes.len() - j,
    {
        assert(tree[j as int] == nodes@[j as int].deep_view());
        let after: usize = syntax::end_index(nodes, j);
        if text::same(nodes[j].kind.as_str(), "import_spec") {
            let ghost before = references.deep_view();
            let ghost rest = imports_from(tree, source@, after as int, end as int);
            if let Some(target) = import_target(nodes, source, j) {
                let one = UniversalReference { target, kind: "import".to_string() };
                references.push(one);
                assert(references.deep_view() =~= before.push(one.deep_view()));
                assert(references.deep_view() + rest =~= before + (seq![one.deep_view()] + rest));
            }
            j = after;
        } else {
            j = j + 1;
        }
    }
    assert(references.deep_view() + imports_from(tree, source@, j as int, end as int)
        =~= references.deep_view());
}

/// What the type in node `i` is, by the first child that says it.
pub open spec fn type_kind_of(tree: Seq<SyntaxNodeView>, i: int) -> Seq<char> {
    match (
        syntax::child_of(tree, i, NodeTest::StructType),
        syntax::child_of(tree, i, NodeTest::InterfaceType),
    ) {
        (Some(a), Some(b)) => if a < b {
            "struct"@
        } else {
            "interface"@
        },
        (Some(_), None) => "struct"@,
        (None, Some(_)) => "interface"@,
        (None, None) => "type"@,
    }
}

fn type_kind(nodes: &[SyntaxNode], i: usize) -> (out: &'static str)
    requires
        i < nodes.len(),
    ensures
        out@ == type_kind_of(nodes.deep_view(), i as int),
{
    match (
        syntax::find_child(nodes, i, NodeTest::StructType),
        syntax::find_child(nodes, i, NodeTest::InterfaceType),
    ) {
        (Some(a), Some(b)) => if a < b {
            "struct"
        } else {
            "interface"
        },
        (Some(_), None) => "struct",
        (None, Some(_)) => "interface",
        (None, None) => "type",
    }
}

/// What the `name` field of node `i` holds.
pub open spec fn field_name_of(tree: Seq<SyntaxNodeView>, source: Seq<u8>, i: int) -> Option<
    Seq<char>,
> {
    match syntax::child_of(tree, i, NodeTest::NameField) {
        Some(j) => trimmed_text(source, tree[j]),
        None => None,
    }
}

fn field_name(nodes: &[SyntaxNode], source: &[u8], i: usize) -> (out: Option<String>)
    requires
        i < nodes.len(),
    ensures
        out.deep_view() == field_name_of(nodes.deep_view(), source@, i as int),
{
    match syntax::find_child(nodes, i, NodeTest::NameField) {
        Some(j) => node_text(source, &nodes[j]),
        None => None,
    }
}

/// The types among the nodes from `j` to `end`.
pub open spec fn types_from(
    tree: Seq<SyntaxNodeView>,
    source: Seq<u8>,
    j: int,
    end: int,
) -> Seq<UniversalSymbolView>
    decreases tree.len() - j,
{
    if j < 0 || j >= end || j >= tree.len() || !(j < syntax::end_of(tree, j) <= tree.len()) {
        Seq::empty()
    } else if tree[j].kind == "type_spec"@ {
        let rest = types_from(tree, source, syntax::end_of(tree, j), end);
        match field_name_of(tree, source, j) {
            Some(name) => seq![UniversalSymbolView { name, kind: type_kind_of(tree, j) }] + rest,
            None => rest,
        }
    } else {
        types_from(tree, source, j + 1, end)
    }
}

fn collect_types(
    nodes: &[SyntaxNode],
    source: &[u8],
    i: usize,
    symbols: &mut Vec<UniversalSymbol>,
)
    requires
        i < nodes.len(),
    ensures
        final(symbols).deep_view() == old(symbols).deep_view() + types_from(
            nodes.deep_view(),
            source@,
            i + 1,
            syntax::end_of(nodes.deep_view(), i as int),
        ),
{
    let ghost tree = nodes.deep_view();
    let ghost start = symbols.deep_view();
    let end: usize = syntax::end_index(nodes, i);
    let ghost whole = types_from(tree, source@, i + 1, end as int);
    let mut j: usize = i + 1;
    while j < end
        invariant
            end <= nodes.len(),
            tree == nodes.deep_view(),
            start + whole == symbols.deep_view() + types_from(
                tree,
                source@,
                j as int,
                end as int,
            ),
        decreases nodes.len() - j,
    {
        assert(tree[j as int] == nodes@[j as int].deep_view());
        let after: usize = syntax::end_index(nodes, j);
        if text::same(nodes[j].kind.as_str(), "type_spec") {
            let ghost before = symbols.deep_view();
            let ghost rest = types_from(tree, source@, after as int, end as int);
            if let Some(name) = field_name(nodes, source, j) {
                let one = UniversalSymbol { name, kind: type_kind(nodes, j).to_string() };
                symbols.push(one);
                assert(symbols.deep_view() =~= before.push(one.deep_view()));
                assert(symbols.deep_view() + rest =~= before + (seq![one.deep_view()] + rest));
            }
            j = after;
        } else {
            j = j + 1;
        }
    }
    assert(symbols.deep_view() + types_from(tree, source@, j as int, end as int)
        =~= symbols.deep_view());
}

/// What a kind of node does to the control flow; a comparison of conditions does
/// something only where it chains them.
pub open spec fn flow_kind_of(source: Seq<u8>, node: SyntaxNodeView) -> Option<
    UniversalControlFlowKind,
> {
    let kind = node.kind;
    if kind == "if_statement"@ {
        Some(UniversalControlFlowKind::Branch)
    } else if kind == "for_statement"@ {
        Some(UniversalControlFlowKind::Loop)
    } else if kind == "expression_switch_statement"@ || kind == "type_switch_statement"@ || kind
        == "select_statement"@ {
        Some(UniversalControlFlowKind::Switch)
    } else if kind == "expression_case"@ || kind == "type_case"@ || kind == "communication_case"@
        || kind == "default_case"@ {
        Some(UniversalControlFlowKind::Case)
    } else if kind == "binary_expression"@ && is_chain(source, node) {
        Some(UniversalControlFlowKind::BooleanChain)
    } else if kind == "break_statement"@ || kind == "continue_statement"@ || kind
        == "goto_statement"@ {
        Some(UniversalControlFlowKind::Jump)
    } else {
        None
    }
}

/// Whether an expression chains conditions.
pub open spec fn is_chain(source: Seq<u8>, node: SyntaxNodeView) -> bool {
    match trimmed_text(source, node) {
        Some(s) => text::holds_part(s, "&&"@) || text::holds_part(s, "||"@),
        None => false,
    }
}

fn is_boolean_chain(source: &[u8], node: &SyntaxNode) -> (r: bool)
    ensures
        r == is_chain(source@, node.deep_view()),
{
    match node_text(source, node) {
        Some(s) => text::contains(s.as_str(), "&&") || text::contains(s.as_str(), "||"),
        None => false,
    }
}

fn flow_kind(source: &[u8], node: &SyntaxNode) -> (out: Option<UniversalControlFlowKind>)
    ensures
        out == flow_kind_of(source@, node.deep_view()),
{
    let kind = node.kind.as_str();
    if text::same(kind, "if_statement") {
        Some(UniversalControlFlowKind::Branch)
    } else if text::same(kind, "for_statement") {
        Some(UniversalControlFlowKind::Loop)
    } else if text::same(kind, "expression_switch_statement") || text::same(
        kind,
        "type_switch_statement",
    ) || text::same(kind, "select_statement") {
        Some(UniversalControlFlowKind::Switch)
    } else if text::same(kind, "expression_case") || text::same(kind, "type_case") || text::same(
        kind,
        "communication_case",
    ) || text::same(kind, "default_case") {
        Some(UniversalControlFlowKind::Case)
    } else if text::same(kind, "binary_expression") && is_boolean_chain(source, node) {
        Some(UniversalControlFlowKind::BooleanChain)
    } else if text::same(kind, "break_statement") || text::same(kind, "continue_statement")
        || text::same(kind, "goto_statement") {
        Some(UniversalControlFlowKind::Jump)
    } else {
        None
    }
}

/// The control flow of node `i`: the node itself, or else that of the nodes inside it.
pub open spec fn flow_at(tree: Seq<SyntaxNodeView>, source: Seq<u8>, i: int) -> Seq<FlowView>
    decreases syntax::end_of(tree, i) - i, 0int,
{
    let end = syntax::end_of(tree, i);
    if !(0 <= i < end) {
        Seq::empty()
    } else {
        match flow_kind_of(source, tree[i]) {
            Some(UniversalControlFlowKind::Jump) => seq![
                FlowView { kind: UniversalControlFlowKind::Jump, children: Seq::empty() },
            ],
            Some(kind) => seq![
                FlowView { kind, children: flows_between(tree, source, i + 1, end) },
            ],
            None => flows_between(tree, source, i + 1, end),
        }
    }
}

/// The control flow of the siblings from `j` to `end`.
pub open spec fn flows_between(
    tree: Seq<SyntaxNodeView>,
    source: Seq<u8>,
    j: int,
    end: int,
) -> Seq<FlowView>
    decreases end - j, 1int,
{
    if !(0 <= j < end) || !(j < syntax::end_of(tree, j) <= end) {
        Seq::empty()
    } else {
        flow_at(tree, source, j) + flows_between(tree, source, syntax::end_of(tree, j), end)
    }
}

proof fn deeper_nodes_end_before(tree: Seq<SyntaxNodeView>, depth: u32, deeper: u32, i: int, k: int)
    requires
        0 <= i <= k <= syntax::end_from(tree, depth, i),
        depth < deeper,
        i <= tree.len(),
    ensures
        syntax::end_from(tree, deeper, k) <= syntax::end_from(tree, depth, i),
    decreases syntax::end_from(tree, depth, i) - k,
{
    syntax::end_from_bounds(tree, depth, i);
    end_is_shallow(tree, depth, i);
    if k < tree.len() && k < syntax::end_from(tree, depth, i) && tree[k].depth > deeper {
        deeper_nodes_end_before(tree, depth, deeper, i, k + 1);
    }
}

proof fn end_is_shallow(tree: Seq<SyntaxNodeView>, depth: u32, i: int)
    requires
        0 <= i <= tree.len(),
    ensures
        syntax::end_from(tree, depth, i) < tree.len() ==> tree[syntax::end_from(tree, depth, i)].depth
            <= depth,
        forall|k: int| i <= k < syntax::end_from(tree, depth, i) ==> (#[trigger] tree[k]).depth > depth,
    decreases tree.len() - i,
{
    if i < tree.len() && tree[i].depth > depth {
        end_is_shallow(tree, depth, i + 1);
        syntax::end_from_bounds(tree, depth, i + 1);
    }
}

/// What lies inside a node ends no later than the node does.
pub proof fn inner_nodes_end_before(tree: Seq<SyntaxNodeView>, i: int, j: int)
    requires
        0 <= i < tree.len(),
        i < j < syntax::end_of(tree, i),
    ensures
        j < syntax::end_of(tree, j) <= syntax::end_of(tree, i),
{
    syntax::end_from_bounds(tree, tree[i].depth, i + 1);
    end_is_shallow(tree, tree[i].depth, i + 1);
    syntax::end_from_bounds(tree, tree[j].depth, j + 1);
    deeper_nodes_end_before(tree, tree[i].depth, tree[j].depth, i + 1, j + 1);
}

proof fn nodes_join(
    a: Seq<UniversalControlFlowNode>,
    b: Seq<UniversalControlFlowNode>,
    x: Seq<FlowView>,
    y: Seq<FlowView>,
)
    requires
        languages::are_nodes(a, x),
        languages::are_nodes(b, y),
    ensures
        languages::are_nodes(a + b, x + y),
{
    assert forall|i: int| 0 <= i < (x + y).len() implies languages::is_node(
        #[trigger] (a + b)[i],
        (x + y)[i],
    ) by {
        if i < x.len() {
            assert((a + b)[i] == a[i]);
        } else {
            assert((a + b)[i] == b[i - x.len()]);
        }
    }
}

fn append_nodes(out: &mut Vec<UniversalControlFlowNode>, more: Vec<UniversalControlFlowNode>)
    ensures
        final(out)@ == old(out)@ + more@,
{
    let ghost start = out@;
    assert(start + more@.take(0) =~= start);
    for x in it: more
        invariant
            it.seq() == more@,
            out@ == start + more@.take(it.index() as int),
    {
        let ghost n = it.index() as int;
        out.push(x);
        assert(out@ =~= start + more@.take(n + 1));
    }
    assert(more@.take(more@.len() as int) =~= more@);
}

fn collect_control_flow(nodes: &[SyntaxNode], source: &[u8], i: usize) -> (out: Vec<
    UniversalControlFlowNode,
>)
    requires
        i < nodes.len(),
    ensures
        languages::are_nodes(out@, flow_at(nodes.deep_view(), source@, i as int)),
    decreases syntax::end_of(nodes.deep_view(), i as int) - i, 0int,
{
    let ghost tree = nodes.deep_view();
    assert(tree[i as int] == nodes@[i as int].deep_view());
    let end: usize = syntax::end_index(nodes, i);
    match flow_kind(source, &nodes[i]) {
        Some(UniversalControlFlowKind::Jump) => {
            let mut out: Vec<UniversalControlFlowNode> = Vec::new();
            out.push(
                UniversalControlFlowNode {
                    kind: UniversalControlFlowKind::Jump,
                    children: Vec::new(),
                },
            );
            out
        },
        Some(kind) => {
            let children = collect_control_flow_children(nodes, source, i, end);
            let mut out: Vec<UniversalControlFlowNode> = Vec::new();
            out.push(UniversalControlFlowNode { kind, children });
            out
        },
        None => collect_control_flow_children(nodes, source, i, end),
    }
}

fn collect_control_flow_children(
    nodes: &[SyntaxNode],
    source: &[u8],
    i: usize,
    end: usize,
) -> (out: Vec<UniversalControlFlowNode>)
    requires
        i < end <= nodes.len(),
        end == syntax::end_of(nodes.deep_view(), i as int),
    ensures
        languages::are_nodes(
            out@,
            flows_between(nodes.deep_view(), source@, i + 1, end as int),
        ),
    decreases end - i - 1, 1int,
{
    let ghost tree = nodes.deep_view();
    let ghost whole = flows_between(tree, source@, i + 1, end as int);
    let ghost mut done: Seq<FlowView> = Seq::empty();
    let mut out: Vec<UniversalControlFlowNode> = Vec::new();
    let mut j: usize = i + 1;
    assert(done + whole =~= whole);
    while j < end
        invariant
            i < j <= end,
            end <= nodes.len(),
            tree == nodes.deep_view(),
            end == syntax::end_of(tree, i as int),
            languages::are_nodes(out@, done),
            whole == done + flows_between(tree, source@, j as int, end as int),
        decreases end - j,
    {
        proof {
            inner_nodes_end_before(tree, i as int, j as int);
        }
        let more = collect_control_flow(nodes, source, j);
        let after: usize = syntax::end_index(nodes, j);
        let ghost here = flow_at(tree, source@, j as int);
        let ghost before = out@;
        let ghost added = more@;
        append_nodes(&mut out, more);
        proof {
            nodes_join(before, added, done, here);
            let rest = flows_between(tree, source@, after as int, end as int);
            assert(done + (here + rest) =~= (done + here) + rest);
            done = done + here;
        }
        j = after;
    }
    assert(done + flows_between(tree, source@, j as int, end as int) =~= done);
    out
}

/// What is taken out of a tree.
#[verifier::ext_equal]
pub struct GoFacts {
    pub symbols: Seq<UniversalSymbolView>,
    pub references: Seq<UniversalReferenceView>,
    pub functions: Seq<FunctionView>,
}

/// The symbol that function `i` is.
pub open spec fn function_symbol(name: Seq<char>, kind: UniversalFunctionKind) -> UniversalSymbolView {
    UniversalSymbolView {
        name,
        kind: match kind {
            UniversalFunctionKind::Function => "function"@,
            UniversalFunctionKind::Method => "method"@,
        },
    }
}

/// The name of function `i`.
pub open spec fn function_name(tree: Seq<SyntaxNodeView>, source: Seq<u8>, i: int) -> Seq<char> {
    match field_name_of(tree, source, i) {
        Some(name) => name,
        None => "<anonymous>"@,
    }
}

/// The control flow of function `i`.
pub open spec fn function_flow(tree: Seq<SyntaxNodeView>, source: Seq<u8>, i: int) -> Seq<FlowView> {
    match syntax::child_of(tree, i, NodeTest::BodyField) {
        Some(j) => flow_at(tree, source, j),
        None => Seq::empty(),
    }
}

/// What a kind of node declares, if it is a function.
pub open spec fn function_kind_of(kind: Seq<char>) -> Option<UniversalFunctionKind> {
    if kind == "function_declaration"@ {
        Some(UniversalFunctionKind::Function)
    } else if kind == "method_declaration"@ {
        Some(UniversalFunctionKind::Method)
    } else {
        None
    }
}

/// What the nodes from `j` on give: imports, functions and types, each looked for inside
/// the nodes that declare nothing themselves.
pub open spec fn facts_from(tree: Seq<SyntaxNodeView>, source: Seq<u8>, j: int) -> GoFacts
    decreases tree.len() - j,
{
    let end = syntax::end_of(tree, j);
    if j < 0 || j >= tree.len() || !(j < end <= tree.len()) {
        GoFacts { symbols: Seq::empty(), references: Seq::empty(), functions: Seq::empty() }
    } else if tree[j].kind == "import_declaration"@ {
        let rest = facts_from(tree, source, end);
        GoFacts { references: imports_from(tree, source, j + 1, end) + rest.references, ..rest }
    } else if tree[j].kind == "type_declaration"@ {
        let rest = facts_from(tree, source, end);
        GoFacts { symbols: types_from(tree, source, j + 1, end) + rest.symbols, ..rest }
    } else {
        match function_kind_of(tree[j].kind) {
            Some(kind) => {
                let rest = facts_from(tree, source, end);
                let name = function_name(tree, source, j);
                GoFacts {
                    symbols: seq![function_symbol(name, kind)] + rest.symbols,
                    functions: seq![
                        FunctionView { name, kind, control_flow: function_flow(tree, source, j) },
                    ] + rest.functions,
                    ..rest
                }
            },
            None => facts_from(tree, source, j + 1),
        }
    }
}

/// What a tree of a Go source gives: what is found inside its root.
pub open spec fn facts_of(tree: Seq<SyntaxNodeView>, source: Seq<u8>) -> GoFacts {
    facts_from(tree, source, 1)
}

fn collect_function(
    nodes: &[SyntaxNode],
    source: &[u8],
    i: usize,
    kind: UniversalFunctionKind,
) -> (out: (UniversalSymbol, UniversalFunction))
    requires
        i < nodes.len(),
    ensures
        out.0.deep_view() == function_symbol(
            function_name(nodes.deep_view(), source@, i as int),
            kind,
        ),
        languages::is_function(
            out.1,
            (FunctionView {
                name: function_name(nodes.deep_view(), source@, i as int),
                kind,
                control_flow: function_flow(nodes.deep_view(), source@, i as int),
            }),
        ),
{
    let name = match field_name(nodes, source, i) {
        Some(name) => name,
        None => "<anonymous>".to_string(),
    };
    let symbol_kind = match kind {
        UniversalFunctionKind::Function => "function",
        UniversalFunctionKind::Method => "method",
    };
    let control_flow = match syntax::find_child(nodes, i, NodeTest::BodyField) {
        Some(j) => collect_control_flow(nodes, source, j),
        None => Vec::new(),
    };
    let symbol = UniversalSymbol { name: name.clone(), kind: symbol_kind.to_string() };
    (symbol, UniversalFunction { name, kind, control_flow })
}

fn function_kind(kind: &str) -> (out: Option<UniversalFunctionKind>)
    ensures
        out == function_kind_of(kind@),
{
    if text::same(kind, "function_declaration") {
        Some(UniversalFunctionKind::Function)
    } else if text::same(kind, "method_declaration") {
        Some(UniversalFunctionKind::Method)
    } else {
        None
    }
}

fn collect_go_facts(nodes: &[SyntaxNode], source: &[u8]) -> (out: (
    Vec<UniversalSymbol>,
    Vec<UniversalReference>,
    Vec<UniversalFunction>,
))
    ensures
        ({
            let facts = facts_of(nodes.deep_view(), source@);
            &&& out.0.deep_view() == facts.symbols
            &&& out.1.deep_view() == facts.references
            &&& languages::are_functions(out.2@, facts.functions)
        }),
{
    let ghost tree = nodes.deep_view();
    let ghost facts = facts_of(tree, source@);
    let ghost mut views: Seq<FunctionView> = Seq::empty();
    let mut symbols: Vec<UniversalSymbol> = Vec::new();
    let mut references: Vec<UniversalReference> = Vec::new();
    let mut functions: Vec<UniversalFunction> = Vec::new();
    let mut j: usize = 1;
    assert(symbols.deep_view() + facts.symbols =~= facts.symbols);
    assert(references.deep_view() + facts.references =~= facts.references);
    assert(views + facts.functions =~= facts.functions);
    while j < nodes.len()
        invariant
            1 <= j,
            tree == nodes.deep_view(),
            facts.symbols == symbols.deep_view() + facts_from(tree, source@, j as int).symbols,
            facts.references == references.deep_view() + facts_from(
                tree,
                source@,
                j as int,
            ).references,
            facts.functions == views + facts_from(tree, source@, j as int).functions,
            languages::are_functions(functions@, views),
        decreases nodes.len() - j,
    {
        let kind = nodes[j].kind.as_str();
        assert(tree[j as int] == nodes@[j as int].deep_view());
        let after: usize = syntax::end_index(nodes, j);
        let ghost rest = facts_from(tree, source@, after as int);
        if text::same(kind, "import_declaration") {
            let ghost before = references.deep_view();
            let ghost here = imports_from(tree, source@, j + 1, after as int);
            collect_imports(nodes, source, j, &mut references);
            assert(before + (here + rest.references) =~= (before + here) + rest.references);
            j = after;
        } else if text::same(kind, "type_declaration") {
            let ghost before = symbols.deep_view();
            let ghost here = types_from(tree, source@, j + 1, after as int);
            collect_types(nodes, source, j, &mut symbols);
            assert(before + (here + rest.symbols) =~= (before + here) + rest.symbols);
            j = after;
        } else {
            match function_kind(kind) {
                Some(function_kind) => {
                    let ghost before = symbols.deep_view();
                    let ghost listed = functions@;
                    let ghost name = function_name(tree, source@, j as int);
                    let ghost view = FunctionView {
                        name,
                        kind: function_kind,
                        control_flow: function_flow(tree, source@, j as int),
                    };
                    let (symbol, function) = collect_function(nodes, source, j, function_kind);
                    symbols.push(symbol);
                    functions.push(function);
                    proof {
                        assert(symbols.deep_view() =~= before.push(symbol.deep_view()));
                        assert(before + (seq![symbol.deep_view()] + rest.symbols)
                            =~= symbols.deep_view() + rest.symbols);
                        assert(views + (seq![view] + rest.functions) =~= views.push(view)
                            + rest.functions);
                        assert forall|n: int| 0 <= n < views.push(view).len() implies languages::is_function(
                            #[trigger] functions@[n],
                            views.push(view)[n],
                        ) by {
                            if n < views.len() {
                                assert(functions@[n] == listed[n]);
                            }
                        }
                        views = views.push(view);
                    }
                    j = after;
                },
                None => {
                    j = j + 1;
                },
            }
        }
    }
    assert(symbols.deep_view() =~= facts.symbols);
    assert(references.deep_view() =~= facts.references);
    assert(views =~= facts.functions);
    (symbols, references, functions)
}

/// An output with nothing in it but what is said of the source.
pub open spec fn bare_output(
    diagnostics: Seq<ParserDiagnosticView>,
    limitations: Seq<ParserLimitationView>,
) -> ParserOutputView {
    ParserOutputView {
        language_id: "go"@,
        symbols: Seq::empty(),
        references: Seq::empty(),
        functions: Seq::empty(),
        diagnostics,
        limitations,
    }
}

/// What a Go source gives, by what became of parsing it.
pub open spec fn output_of_outcome(outcome: ParseOutcomeView, source: Seq<u8>) -> ParserOutputView {
    match outcome {
        ParseOutcomeView::GrammarFailed { message } => bare_output(
            seq![
                ParserDiagnosticView {
                    code: "parser_language_failed"@,
                    message: "failed to initialize Go parser: "@ + message,
                },
            ],
            Seq::empty(),
        ),
        ParseOutcomeView::NoTree => bare_output(
            seq![
                ParserDiagnosticView {
                    code: "parse_failed"@,
                    message: "tree-sitter returned no Go syntax tree"@,
                },
            ],
            Seq::empty(),
        ),
        ParseOutcomeView::Tree { flawed, nodes } => {
            let facts = facts_of(nodes, source);
            ParserOutputView {
                language_id: "go"@,
                symbols: facts.symbols,
                references: facts.references,
                functions: facts.functions,
                diagnostics: if flawed {
                    seq![
                        ParserDiagnosticView {
                            code: "parse_error"@,
                            message: "Go source contains syntax errors"@,
                        },
                    ]
                } else {
                    Seq::empty()
                },
                limitations: Seq::empty(),
            }
        },
    }
}

/// What a Go file gives.
pub open spec fn output_of(file: AnalyzedFileView) -> ParserOutputView {
    let bytes = file.window.bytes;
    if file.window.truncated {
        bare_output(
            Seq::empty(),
            seq![
                ParserLimitationView {
                    code: "truncated_source"@,
                    message: "Go parser skipped content beyond the active file window"@,
                },
            ],
        )
    } else if !vstd::utf8::valid_utf8(bytes) {
        bare_output(
            seq![
                ParserDiagnosticView {
                    code: "invalid_utf8"@,
                    message: "Go parser requires UTF-8 source: "@ + text::utf8_fault(bytes),
                },
            ],
            Seq::empty(),
        )
    } else {
        output_of_outcome(
            syntax::syntax_of(SupportedLanguage::Go, vstd::utf8::decode_utf8(bytes)),
            bytes,
        )
    }
}

fn bare(diagnostics: Vec<ParserDiagnostic>, limitations: Vec<ParserLimitation>) -> (out:
    ParserOutput)
    ensures
        languages::is_output(out, bare_output(diagnostics.deep_view(), limitations.deep_view())),
{
    let out = ParserOutput {
        language_id: "go".to_string(),
        symbols: Vec::new(),
        references: Vec::new(),
        metrics_input: UniversalCodeMetricsInput { functions: Vec::new() },
        diagnostics,
        limitations,
    };
    assert(out.symbols.deep_view() =~= Seq::<UniversalSymbolView>::empty());
    assert(out.references.deep_view() =~= Seq::<UniversalReferenceView>::empty());
    out
}

fn one_diagnostic(code: &str, message: String) -> (out: ParserOutput)
    ensures
        languages::is_output(
            out,
            bare_output(
                seq![ParserDiagnosticView { code: code@, message: message@ }],
                Seq::empty(),
            ),
        ),
{
    let mut diagnostics: Vec<ParserDiagnostic> = Vec::new();
    diagnostics.push(ParserDiagnostic { code: code.to_string(), message });
    let limitations: Vec<ParserLimitation> = Vec::new();
    assert(diagnostics.deep_view() =~= seq![
        ParserDiagnosticView { code: code@, message: message@ },
    ]);
    assert(limitations.deep_view() =~= Seq::<ParserLimitationView>::empty());
    bare(diagnostics, limitations)
}

/// What a Go source gives, by what became of parsing it.
pub fn output_from_outcome(outcome: &ParseOutcome, source: &[u8]) -> (out: ParserOutput)
    ensures
        languages::is_output(out, output_of_outcome(outcome.deep_view(), source@)),
{
    match outcome {
        ParseOutcome::GrammarFailed { message } => {
            let mut words = "failed to initialize Go parser: ".to_string();
            words.append(message.as_str());
            one_diagnostic("parser_language_failed", words)
        },
        ParseOutcome::NoTree => one_diagnostic(
            "parse_failed",
            "tree-sitter returned no Go syntax tree".to_string(),
        ),
        ParseOutcome::Tree { flawed, nodes } => {
            let mut diagnostics: Vec<ParserDiagnostic> = Vec::new();
            if *flawed {
                diagnostics.push(
                    ParserDiagnostic {
                        code: "parse_error".to_string(),
                        message: "Go source contains syntax errors".to_string(),
                    },
                );
            }
            let limitations: Vec<ParserLimitation> = Vec::new();
            let (symbols, references, functions) = collect_go_facts(nodes.as_slice(), source);
            proof {
                let expected = output_of_outcome(outcome.deep_view(), source@);
                assert(diagnostics.deep_view() =~= expected.diagnostics);
                assert(limitations.deep_view() =~= expected.limitations);
            }
            ParserOutput {
                language_id: "go".to_string(),
                symbols,
                references,
                metrics_input: UniversalCodeMetricsInput { functions },
                diagnostics,
                limitations,
            }
        },
    }
}

/// Parses Go sources.
#[derive(Debug)]
pub struct GoParser;

impl GoParser {
    pub fn new() -> (out: GoParser)
        ensures
            out == GoParser,
    {
        GoParser
    }
}

impl Default for GoParser {
    fn default() -> (out: GoParser)
        ensures
            out == GoParser,
    {
        GoParser
    }
}

impl LanguageParser for GoParser {
    fn language_id(&self) -> (out: &'static str)
        ensures
            out@ == "go"@,
    {
        "go"
    }

    /// A file is taken where it is called like a Go source, and all of it is text.
    fn recognize(&self, file: &AnalyzedFile) -> (out: ParserRecognition)
        ensures
            out == (if scan::written_extension(file.deep_view().path) == Some("go"@)
                && file.window.content_kind == ContentKind::Text && !file.window.truncated {
                ParserRecognition::Recognized
            } else {
                ParserRecognition::NotRecognized
            }),
    {
        let is_go = match scan::extension_as_written(file.path.as_str()) {
            Some(extension) => text::same(extension.as_str(), "go"),
            None => false,
        };
        if is_go && file.window.content_kind == ContentKind::Text && !file.window.truncated {
            ParserRecognition::Recognized
        } else {
            ParserRecognition::NotRecognized
        }
    }

    fn parse(&self, file: &AnalyzedFile) -> (out: ParserOutput)
        ensures
            languages::is_output(out, output_of(file.deep_view())),
    {
        let bytes = file.window.bytes.as_slice();
        assert(file.window.bytes.deep_view() =~= bytes@);
        if file.window.truncated {
            let diagnostics: Vec<ParserDiagnostic> = Vec::new();
            let mut limitations: Vec<ParserLimitation> = Vec::new();
            limitations.push(
                ParserLimitation {
                    code: "truncated_source".to_string(),
                    message: "Go parser skipped content beyond the active file window".to_string(),
                },
            );
            proof {
                let expected = output_of(file.deep_view());
                assert(diagnostics.deep_view() =~= expected.diagnostics);
                assert(limitations.deep_view() =~= expected.limitations);
            }
            return bare(diagnostics, limitations);
        }
        match text::decode(bytes) {
            Err(fault) => {
                let mut words = "Go parser requires UTF-8 source: ".to_string();
                words.append(fault.as_str());
                one_diagnostic("invalid_utf8", words)
            },
            Ok(source) => {
                let outcome = syntax::parse_tree(SupportedLanguage::Go, source.as_str());
                output_from_outcome(&outcome, bytes)
            },
        }
    }
}

} // verus!
