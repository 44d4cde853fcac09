//! Syntax trees: the nodes in the order in which they start, each with its depth.

use vstd::prelude::*;

use crate::text;

verus! {

/// A language that sources are parsed in.
#[derive(Debug, Clone, Copy, PartialEq, Eq, Structural)]
pub enum SupportedLanguage {
    Rust,
    Go,
    TypeScript,
    Tsx,
}

impl SupportedLanguage {
    /// What the language is called.
    pub open spec fn word(self) -> Seq<char> {
        match self {
            SupportedLanguage::Rust => "Rust"@,
            SupportedLanguage::Go => "Go"@,
            SupportedLanguage::TypeScript => "TypeScript"@,
            SupportedLanguage::Tsx => "Tsx"@,
        }
    }

    /// What the language is called.
    pub fn name(self) -> (out: &'static str)
        ensures
            out@ == self.word(),
    {
        match self {
            SupportedLanguage::Rust => "Rust",
            SupportedLanguage::Go => "Go",
            SupportedLanguage::TypeScript => "TypeScript",
            SupportedLanguage::Tsx => "Tsx",
        }
    }
}

/// A node of a syntax tree.
#[derive(Debug, Clone, PartialEq, Eq)]
pub struct SyntaxNode {
    /// What the grammar calls the node.
    pub kind: String,
    /// The field of its parent that the node is in.
    pub field: Option<String>,
    /// Whether the node has a name in the grammar, unlike a mere token.
    pub named: bool,
    /// How many nodes enclose it.
    pub depth: u32,
    pub start_byte: usize,
    pub end_byte: usize,
    /// The line on which it starts, counted from zero.
    pub start_row: u32,
    /// The line on which it ends, counted from zero.
    pub end_row: u32,
}

/// What a [`SyntaxNode`] stands for.
#[verifier::ext_equal]
pub struct SyntaxNodeView {
    pub kind: Seq<char>,
    pub field: Option<Seq<char>>,
    pub named: bool,
    pub depth: u32,
    pub start_byte: usize,
    pub end_byte: usize,
    pub start_row: u32,
    pub end_row: u32,
}

impl DeepView for SyntaxNode {
    type V = SyntaxNodeView;

    open spec fn deep_view(&self) -> SyntaxNodeView {
        SyntaxNodeView {
            kind: self.kind@,
            field: self.field.deep_view(),
            named: self.named,
            depth: self.depth,
            start_byte: self.start_byte,
            end_byte: self.end_byte,
            start_row: self.start_row,
            end_row: self.end_row,
        }
    }
}

/// What became of a source.
#[derive(Debug, Clone, PartialEq, Eq)]
pub enum ParseOutcome {
    /// The grammar could not be used; in words.
    GrammarFailed { message: String },
    /// There is no tree.
    NoTree,
    /// The tree, and whether it holds a syntax error.
    Tree { flawed: bool, nodes: Vec<SyntaxNode> },
}

/// What a [`ParseOutcome`] stands for.
#[verifier::ext_equal]
pub enum ParseOutcomeView {
    GrammarFailed { message: Seq<char> },
    NoTree,
    Tree { flawed: bool, nodes: Seq<SyntaxNodeView> },
}

impl DeepView for ParseOutcome {
    type V = ParseOutcomeView;

    open spec fn deep_view(&self) -> ParseOutcomeView {
        match self {
            ParseOutcome::GrammarFailed { message } => ParseOutcomeView::GrammarFailed {
                message: message@,
            },
            ParseOutcome::NoTree => ParseOutcomeView::NoTree,
            ParseOutcome::Tree { flawed, nodes } => ParseOutcomeView::Tree {
                flawed: *flawed,
                nodes: nodes.deep_view(),
            },
        }
    }
}

/// The tree type of tree-sitter.
#[verifier::external_type_specification]
#[verifier::external_body]
pub struct ExTree(tree_sitter::Tree);

/// The cursor type of tree-sitter.
#[verifier::external_type_specification]
#[verifier::external_body]
pub struct ExTreeCursor<'tree>(tree_sitter::TreeCursor<'tree>);

/// The nodes that a tree of tree-sitter holds, in the order in which they start.
pub uninterp spec fn tree_nodes(tree: tree_sitter::Tree) -> Seq<SyntaxNodeView>;

/// Whether a tree of tree-sitter holds a syntax error.
pub uninterp spec fn tree_is_flawed(tree: tree_sitter::Tree) -> bool;

/// What tree-sitter makes of a source, with the grammar of a language.
pub uninterp spec fn syntax_of(language: SupportedLanguage, source: Seq<char>) -> ParseOutcomeView;

/// `tree_sitter::Parser::parse`, after `set_language` with the grammar of the language:
/// what comes of it depends on the language and the source alone. How a grammar turns
/// text into a tree is left open.
#[verifier::external_body]
fn parse_source(language: SupportedLanguage, source: &str) -> (out: Result<
    tree_sitter::Tree,
    Option<String>,
>)
    ensures
        match out {
            Ok(tree) => syntax_of(language, source@) == (ParseOutcomeView::Tree {
                flawed: tree_is_flawed(tree),
                nodes: tree_nodes(tree),
            }),
            Err(Some(message)) => syntax_of(language, source@) == (
            ParseOutcomeView::GrammarFailed { message: message@ }),
            Err(None) => syntax_of(language, source@) == ParseOutcomeView::NoTree,
        },
{
    let grammar = match language {
        SupportedLanguage::Rust => tree_sitter_rust::LANGUAGE,
        SupportedLanguage::Go => tree_sitter_go::LANGUAGE,
        SupportedLanguage::TypeScript => tree_sitter_typescript::LANGUAGE_TYPESCRIPT,
        SupportedLanguage::Tsx => tree_sitter_typescript::LANGUAGE_TSX,
    };
    let mut parser = tree_sitter::Parser::new();
    parser.set_language(&grammar.into()).map_err(|e| Some(e.to_string()))?;
    parser.parse(source, None).ok_or(None)
}

/// `tree_sitter::Node::has_error` of the root: whether the tree holds a syntax error.
#[verifier::external_body]
fn has_error(tree: &tree_sitter::Tree) -> (out: bool)
    ensures
        out == tree_is_flawed(*tree),
{
    tree.root_node().has_error()
}

/// The first node at or behind `j` that is not deeper than `depth`.
pub open spec fn end_from(tree: Seq<SyntaxNodeView>, depth: u32, j: int) -> int
    decreases tree.len() - j,
{
    if j >= tree.len() {
        tree.len() as int
    } else if tree[j].depth <= depth {
        j
    } else {
        end_from(tree, depth, j + 1)
    }
}

/// Where the nodes inside node `i` end.
pub open spec fn end_of(tree: Seq<SyntaxNodeView>, i: int) -> int {
    end_from(tree, tree[i].depth, i + 1)
}

/// The nodes inside a node end behind it, and up to there all are deeper than it.
pub proof fn end_from_bounds(tree: Seq<SyntaxNodeView>, depth: u32, j: int)
    requires
        j <= tree.len(),
    ensures
        j <= end_from(tree, depth, j) <= tree.len(),
        forall|k: int| j <= k < end_from(tree, depth, j) ==> (#[trigger] tree[k]).depth > depth,
        end_from(tree, depth, j) < tree.len() ==> tree[end_from(tree, depth, j)].depth <= depth,
    decreases tree.len() - j,
{
    if j < tree.len() && tree[j].depth > depth {
        end_from_bounds(tree, depth, j + 1);
    }
}

/// The nodes that a cursor of tree-sitter can be led to, in the order in which they start.
pub uninterp spec fn cursor_nodes(cursor: tree_sitter::TreeCursor<'_>) -> Seq<SyntaxNodeView>;

/// Which of its nodes a cursor of tree-sitter stands at.
pub uninterp spec fn cursor_place(cursor: tree_sitter::TreeCursor<'_>) -> int;

/// Whether nodes are those of one tree, each before the nodes inside it: the first
/// encloses all others, and a node lies at most one deeper than the node before it.
pub open spec fn is_tree(tree: Seq<SyntaxNodeView>) -> bool {
    &&& tree.len() > 0
    &&& tree[0].depth == 0
    &&& forall|i: int|
        0 < i < tree.len() ==> 0 < (#[trigger] tree[i]).depth <= tree[i - 1].depth + 1
}

/// The last node before `j` that is less deep than `depth`, if there is one.
pub open spec fn enclosing_from(tree: Seq<SyntaxNodeView>, depth: u32, j: int) -> int
    decreases j,
{
    if j <= 0 {
        -1
    } else if tree[j - 1].depth < depth {
        j - 1
    } else {
        enclosing_from(tree, depth, j - 1)
    }
}

/// The node that encloses node `i`.
pub open spec fn parent_of(tree: Seq<SyntaxNodeView>, i: int) -> int {
    enclosing_from(tree, tree[i].depth, i)
}

/// Whether `after` is `before`, led to node `place`.
pub open spec fn is_led_to(
    before: tree_sitter::TreeCursor<'_>,
    after: tree_sitter::TreeCursor<'_>,
    place: int,
) -> bool {
    cursor_nodes(after) == cursor_nodes(before) && cursor_place(after) == place
}

/// `tree_sitter::Tree::walk`: a cursor over the nodes of the tree, at the root.
#[verifier::external_body]
fn walk(tree: &tree_sitter::Tree) -> (cursor: tree_sitter::TreeCursor<'_>)
    ensures
        cursor_nodes(cursor) == tree_nodes(*tree),
        is_tree(cursor_nodes(cursor)),
        cursor_place(cursor) == 0,
{
    tree.walk()
}

/// `tree_sitter::TreeCursor::goto_first_child`: leads the cursor to the first node inside
/// the one it stands at, which is the next, unless there is none.
#[verifier::external_body]
fn goto_first_child(cursor: &mut tree_sitter::TreeCursor<'_>) -> (moved: bool)
    ensures
        ({
            let (tree, i) = (cursor_nodes(*old(cursor)), cursor_place(*old(cursor)));
            &&& moved == (i + 1 < tree.len() && tree[i + 1].depth > tree[i].depth)
            &&& is_led_to(*old(cursor), *final(cursor), if moved { i + 1 } else { i })
        }),
{
    cursor.goto_first_child()
}

/// `tree_sitter::TreeCursor::goto_next_sibling`: leads the cursor to the node that follows
/// the one it stands at inside the same node, unless there is none.
#[verifier::external_body]
fn goto_next_sibling(cursor: &mut tree_sitter::TreeCursor<'_>) -> (moved: bool)
    ensures
        ({
            let (tree, i) = (cursor_nodes(*old(cursor)), cursor_place(*old(cursor)));
            let next = end_of(tree, i);
            &&& moved == (next < tree.len() && tree[next].depth == tree[i].depth)
            &&& is_led_to(*old(cursor), *final(cursor), if moved { next } else { i })
        }),
{
    cursor.goto_next_sibling()
}

/// `tree_sitter::TreeCursor::goto_parent`: leads the cursor to the node that encloses the
/// one it stands at, unless that is the root.
#[verifier::external_body]
fn goto_parent(cursor: &mut tree_sitter::TreeCursor<'_>) -> (moved: bool)
    ensures
        ({
            let (tree, i) = (cursor_nodes(*old(cursor)), cursor_place(*old(cursor)));
            &&& moved == (tree[i].depth > 0)
            &&& is_led_to(*old(cursor), *final(cursor), if moved { parent_of(tree, i) } else { i })
        }),
{
    cursor.goto_parent()
}

/// `tree_sitter::TreeCursor::node`: the node that the cursor stands at, as plain values,
/// with its field (`field_name`) and its depth (`depth`).
#[verifier::external_body]
fn node_at(cursor: &tree_sitter::TreeCursor<'_>) -> (out: SyntaxNode)
    ensures
        out.deep_view() == cursor_nodes(*cursor)[cursor_place(*cursor)],
{
    let node = cursor.node();
    SyntaxNode {
        kind: node.kind().to_owned(),
        field: cursor.field_name().map(str::to_owned),
        named: node.is_named(),
        depth: cursor.depth(),
        start_byte: node.start_byte(),
        end_byte: node.end_byte(),
        start_row: node.start_position().row as u32,
        end_row: node.end_position().row as u32,
    }
}

/// Up to the node that encloses a node, all nodes are deeper than it.
proof fn enclosing_is_last(tree: Seq<SyntaxNodeView>, depth: u32, j: int)
    requires
        is_tree(tree),
        0 < j <= tree.len(),
        0 < depth,
    ensures
        0 <= enclosing_from(tree, depth, j) < j,
        tree[enclosing_from(tree, depth, j)].depth < depth,
        forall|k: int|
            enclosing_from(tree, depth, j) < k < j ==> (#[trigger] tree[k]).depth >= depth,
    decreases j,
{
    if tree[j - 1].depth >= depth {
        enclosing_is_last(tree, depth, j - 1);
    }
}

/// Where all nodes from `j` to `end` are deeper than `depth`, and that at `end` is not, the
/// nodes inside end at `end`.
proof fn end_is_first(tree: Seq<SyntaxNodeView>, depth: u32, j: int, end: int)
    requires
        0 <= j <= end <= tree.len(),
        forall|k: int| j <= k < end ==> (#[trigger] tree[k]).depth > depth,
        end < tree.len() ==> tree[end].depth <= depth,
    ensures
        end_from(tree, depth, j) == end,
    decreases end - j,
{
    if j < end {
        end_is_first(tree, depth, j + 1, end);
    }
}

/// A node that nothing follows ends where the node that encloses it ends.
proof fn parent_ends_with_last(tree: Seq<SyntaxNodeView>, i: int)
    requires
        is_tree(tree),
        0 <= i < tree.len(),
        tree[i].depth > 0,
        end_of(tree, i) < tree.len() ==> tree[end_of(tree, i)].depth != tree[i].depth,
    ensures
        0 <= parent_of(tree, i) < i,
        tree[parent_of(tree, i)].depth < tree[i].depth,
        end_of(tree, parent_of(tree, i)) == end_of(tree, i),
{
    let depth = tree[i].depth;
    let parent = parent_of(tree, i);
    enclosing_is_last(tree, depth, i);
    end_from_bounds(tree, depth, i + 1);
    assert(tree[parent + 1].depth <= tree[parent].depth + 1);
    assert(tree[parent + 1].depth >= depth);
    end_is_first(tree, tree[parent].depth, parent + 1, end_of(tree, i));
}

/// The nodes of a tree: the cursor is led through all of it.
fn nodes_of(tree: &tree_sitter::Tree) -> (out: Vec<SyntaxNode>)
    ensures
        out.deep_view() == tree_nodes(*tree),
{
    let ghost all = tree_nodes(*tree);
    let mut cursor = walk(tree);
    let mut nodes: Vec<SyntaxNode> = Vec::new();
    let mut more = true;
    assert(nodes.deep_view() =~= all.take(0));
    while more
        invariant
            is_tree(all),
            cursor_nodes(cursor) == all,
            nodes.len() <= all.len(),
            nodes.deep_view() == all.take(nodes.len() as int),
            more ==> cursor_place(cursor) == nodes.len() && nodes.len() < all.len(),
            !more ==> nodes.len() == all.len(),
        decreases all.len() - nodes.len(),
    {
        let ghost i = cursor_place(cursor);
        let ghost before = nodes.deep_view();
        nodes.push(node_at(&cursor));
        assert(nodes.deep_view() =~= before.push(all[i]));
        assert(before.push(all[i]) =~= all.take(i + 1));
        let mut moved = goto_first_child(&mut cursor);
        assert(!moved ==> end_of(all, i) == i + 1);
        while !moved && more
            invariant
                is_tree(all),
                cursor_nodes(cursor) == all,
                nodes.len() == i + 1 <= all.len(),
                moved ==> more && cursor_place(cursor) == i + 1 && i + 1 < all.len(),
                !moved && more ==> 0 <= cursor_place(cursor) <= i && end_of(
                    all,
                    cursor_place(cursor),
                ) == i + 1,
                !more ==> i + 1 == all.len(),
            decreases
                    if moved || !more {
                        0
                    } else {
                        1 + all[cursor_place(cursor)].depth
                    },
        {
            let ghost k = cursor_place(cursor);
            moved = goto_next_sibling(&mut cursor);
            if !moved {
                let climbed = goto_parent(&mut cursor);
                proof {
                    if climbed {
                        parent_ends_with_last(all, k);
                    } else {
                        end_from_bounds(all, 0, k + 1);
                    }
                }
                more = climbed;
            }
        }
    }
    assert(all.take(all.len() as int) =~= all);
    nodes
}

/// Parses a source.
pub fn parse_tree(language: SupportedLanguage, source: &str) -> (out: ParseOutcome)
    ensures
        out.deep_view() == syntax_of(language, source@),
{
    match parse_source(language, source) {
        Ok(tree) => ParseOutcome::Tree { flawed: has_error(&tree), nodes: nodes_of(&tree) },
        Err(Some(message)) => ParseOutcome::GrammarFailed { message },
        Err(None) => ParseOutcome::NoTree,
    }
}

/// Where the nodes inside node `i` end.
pub fn end_index(nodes: &[SyntaxNode], i: usize) -> (end: usize)
    requires
        i < nodes.len(),
    ensures
        end == end_of(nodes.deep_view(), i as int),
        i < end <= nodes.len(),
{
    let ghost tree = nodes.deep_view();
    let depth: u32 = nodes[i].depth;
    assert(tree[i as int].depth == depth);
    let mut j: usize = i + 1;
    while j < nodes.len() && nodes[j].depth > depth
        invariant
            i < j <= nodes.len(),
            tree == nodes.deep_view(),
            end_from(tree, depth, i + 1) == end_from(tree, depth, j as int),
        decreases nodes.len() - j,
    {
        assert(tree[j as int].depth == nodes@[j as int].depth);
        j = j + 1;
    }
    assert(j < nodes.len() ==> tree[j as int].depth == nodes@[j as int].depth);
    j
}

/// What a node is looked for by.
#[derive(Debug, Clone, Copy, PartialEq, Eq, Structural)]
pub enum NodeTest {
    /// It is in the field `name`.
    NameField,
    /// It is in the field `body`.
    BodyField,
    /// It is in the field `receiver`.
    ReceiverField,
    /// It is a named node that names something.
    Identifier,
    /// It is a named node that a declaration's head ends before.
    Body,
    /// It is a string literal.
    StringLiteral,
    /// It is a string literal of Go.
    GoStringLiteral,
    /// It is a part of the source that could not be parsed.
    Error,
    /// It is a struct type.
    StructType,
    /// It is an interface type.
    InterfaceType,
}

/// Whether a kind of node names something.
pub open spec fn is_identifier_kind(kind: Seq<char>) -> bool {
    kind == "identifier"@ || kind == "field_identifier"@ || kind == "package_identifier"@ || kind
        == "property_identifier"@ || kind == "type_identifier"@ || kind == "nested_identifier"@
}

/// Whether the head of a declaration ends before a node of this kind.
pub open spec fn is_body_kind(kind: Seq<char>) -> bool {
    kind == "block"@ || kind == "statement_block"@ || kind == "declaration_list"@ || kind
        == "class_body"@ || kind == "object_type"@ || kind == "field_declaration_list"@ || kind
        == "enum_variant_list"@ || kind == "interface_type"@ || kind == "struct_type"@
}

/// Whether a node passes a test.
pub open spec fn passes(node: SyntaxNodeView, test: NodeTest) -> bool {
    match test {
        NodeTest::NameField => node.field == Some("name"@),
        NodeTest::BodyField => node.field == Some("body"@),
        NodeTest::ReceiverField => node.field == Some("receiver"@),
        NodeTest::Identifier => node.named && is_identifier_kind(node.kind),
        NodeTest::Body => node.named && is_body_kind(node.kind),
        NodeTest::StringLiteral => node.kind == "interpreted_string_literal"@ || node.kind
            == "raw_string_literal"@ || node.kind == "string"@,
        NodeTest::GoStringLiteral => node.kind == "interpreted_string_literal"@ || node.kind
            == "raw_string_literal"@,
        NodeTest::Error => node.kind == "ERROR"@,
        NodeTest::StructType => node.kind == "struct_type"@,
        NodeTest::InterfaceType => node.kind == "interface_type"@,
    }
}

fn has_field(node: &SyntaxNode, name: &str) -> (r: bool)
    ensures
        r == (node.deep_view().field == Some(name@)),
{
    match &node.field {
        Some(field) => text::same(field.as_str(), name),
        None => false,
    }
}

/// Whether a node passes a test.
pub fn node_passes(node: &SyntaxNode, test: NodeTest) -> (r: bool)
    ensures
        r == passes(node.deep_view(), test),
{
    let kind = node.kind.as_str();
    match test {
        NodeTest::NameField => has_field(node, "name"),
        NodeTest::BodyField => has_field(node, "body"),
        NodeTest::ReceiverField => has_field(node, "receiver"),
        NodeTest::Identifier => node.named && (text::same(kind, "identifier") || text::same(
            kind,
            "field_identifier",
        ) || text::same(kind, "package_identifier") || text::same(kind, "property_identifier")
            || text::same(kind, "type_identifier") || text::same(kind, "nested_identifier")),
        NodeTest::Body => node.named && (text::same(kind, "block") || text::same(
            kind,
            "statement_block",
        ) || text::same(kind, "declaration_list") || text::same(kind, "class_body")
            || text::same(kind, "object_type") || text::same(kind, "field_declaration_list")
            || text::same(kind, "enum_variant_list") || text::same(kind, "interface_type")
            || text::same(kind, "struct_type")),
        NodeTest::StringLiteral => text::same(kind, "interpreted_string_literal") || text::same(
            kind,
            "raw_string_literal",
        ) || text::same(kind, "string"),
        NodeTest::GoStringLiteral => text::same(kind, "interpreted_string_literal") || text::same(
            kind,
            "raw_string_literal",
        ),
        NodeTest::Error => text::same(kind, "ERROR"),
        NodeTest::StructType => text::same(kind, "struct_type"),
        NodeTest::InterfaceType => text::same(kind, "interface_type"),
    }
}

/// The first of the siblings from `j` to `end` that passes a test.
pub open spec fn sibling_from(
    tree: Seq<SyntaxNodeView>,
    j: int,
    end: int,
    test: NodeTest,
) -> Option<int>
    decreases tree.len() - j,
{
    if j < 0 || j >= end || j >= tree.len() {
        None
    } else if passes(tree[j], test) {
        Some(j)
    } else if j < end_of(tree, j) <= tree.len() {
        sibling_from(tree, end_of(tree, j), end, test)
    } else {
        None
    }
}

/// The first child of node `i` that passes a test.
pub open spec fn child_of(tree: Seq<SyntaxNodeView>, i: int, test: NodeTest) -> Option<int> {
    sibling_from(tree, i + 1, end_of(tree, i), test)
}

/// The first child of node `i` that passes a test.
pub fn find_child(nodes: &[SyntaxNode], i: usize, test: NodeTest) -> (out: Option<usize>)
    requires
        i < nodes.len(),
    ensures
        match out {
            Some(j) => child_of(nodes.deep_view(), i as int, test) == Some(j as int) && i < j
                < nodes.len(),
            None => child_of(nodes.deep_view(), i as int, test) is None,
        },
{
    let ghost tree = nodes.deep_view();
    let end: usize = end_index(nodes, i);
    let mut j: usize = i + 1;
    while j < end
        invariant
            i < j,
            i < nodes.len(),
            end <= nodes.len(),
            tree == nodes.deep_view(),
            end == end_of(tree, i as int),
            sibling_from(tree, i + 1, end as int, test) == sibling_from(
                tree,
                j as int,
                end as int,
                test,
            ),
        decreases nodes.len() - j,
    {
        assert(tree[j as int] == nodes@[j as int].deep_view());
        if node_passes(&nodes[j], test) {
            return Some(j);
        }
        j = end_index(nodes, j);
    }
    None
}

proof fn sibling_is_reached(tree: Seq<SyntaxNodeView>, i: int, m: int, c: int, test: NodeTest)
    requires
        0 <= i < m <= c < end_of(tree, i) <= tree.len(),
        tree[m].depth == tree[c].depth == tree[i].depth + 1,
        passes(tree[c], test),
        forall|k: int|
            i < k < c && (#[trigger] tree[k]).depth == tree[i].depth + 1 ==> !passes(tree[k], test),
        forall|k: int| i < k < end_of(tree, i) ==> (#[trigger] tree[k]).depth > tree[i].depth,
    ensures
        sibling_from(tree, m, end_of(tree, i), test) == Some(c),
    decreases c - m,
{
    if m < c {
        end_from_bounds(tree, tree[m].depth, m + 1);
        let next = end_of(tree, m);
        assert(next <= c) by {
            if c < next {
                assert(tree[c].depth > tree[m].depth);
            }
        }
        assert(tree[next].depth == tree[c].depth);
        sibling_is_reached(tree, i, next, c, test);
    }
}

/// The child that is found is the first of the nodes directly inside a node that passes.
pub proof fn first_child_is_found(tree: Seq<SyntaxNodeView>, i: int, c: int, test: NodeTest)
    requires
        is_tree(tree),
        0 <= i < c < end_of(tree, i),
        i < tree.len(),
        tree[c].depth == tree[i].depth + 1,
        passes(tree[c], test),
        forall|k: int|
            i < k < c && (#[trigger] tree[k]).depth == tree[i].depth + 1 ==> !passes(tree[k], test),
    ensures
        child_of(tree, i, test) == Some(c),
{
    end_from_bounds(tree, tree[i].depth, i + 1);
    assert(tree[i + 1].depth <= tree[i].depth + 1);
    assert(tree[i + 1].depth > tree[i].depth);
    sibling_is_reached(tree, i, i + 1, c, test);
}

/// The first node from `j` to `end` that passes a test, not looking into nodes that
/// have no name in the grammar.
pub open spec fn named_from(
    tree: Seq<SyntaxNodeView>,
    j: int,
    end: int,
    test: NodeTest,
) -> Option<int>
    decreases tree.len() - j,
{
    if j < 0 || j >= end || j >= tree.len() {
        None
    } else if !tree[j].named {
        if j < end_of(tree, j) <= tree.len() {
            named_from(tree, end_of(tree, j), end, test)
        } else {
            None
        }
    } else if passes(tree[j], test) {
        Some(j)
    } else {
        named_from(tree, j + 1, end, test)
    }
}

/// The first node from `start` to `end` that passes a test, not looking into nodes that
/// have no name in the grammar.
pub fn find_named(nodes: &[SyntaxNode], start: usize, end: usize, test: NodeTest) -> (out: Option<
    usize,
>)
    requires
        start <= nodes.len(),
        end <= nodes.len(),
    ensures
        match out {
            Some(j) => named_from(nodes.deep_view(), start as int, end as int, test) == Some(
                j as int,
            ) && start <= j < end,
            None => named_from(nodes.deep_view(), start as int, end as int, test) is None,
        },
{
    let ghost tree = nodes.deep_view();
    let mut j: usize = start;
    while j < end
        invariant
            start <= j,
            end <= nodes.len(),
            tree == nodes.deep_view(),
            named_from(tree, start as int, end as int, test) == named_from(
                tree,
                j as int,
                end as int,
                test,
            ),
        decreases nodes.len() - j,
    {
        assert(tree[j as int] == nodes@[j as int].deep_view());
        if !nodes[j].named {
            j = end_index(nodes, j);
        } else if node_passes(&nodes[j], test) {
            return Some(j);
        } else {
            j = j + 1;
        }
    }
    None
}

/// The text between two byte offsets of a source, where there is text between them.
pub open spec fn text_between(source: Seq<u8>, start: int, end: int) -> Option<Seq<char>> {
    if 0 <= start <= end <= source.len() && vstd::utf8::valid_utf8(source.subrange(start, end)) {
        Some(vstd::utf8::decode_utf8(source.subrange(start, end)))
    } else {
        None
    }
}

/// The text between two byte offsets of a source, where there is text between them.
pub fn source_text(source: &[u8], start: usize, end: usize) -> (out: Option<String>)
    ensures
        out.deep_view() == text_between(source@, start as int, end as int),
{
    if start > end || end > source.len() {
        return None;
    }
    match text::decode(vstd::slice::slice_subrange(source, start, end)) {
        Ok(s) => Some(s),
        Err(_) => None,
    }
}

/// The text of a node.
pub open spec fn text_of(source: Seq<u8>, node: SyntaxNodeView) -> Option<Seq<char>> {
    text_between(source, node.start_byte as int, node.end_byte as int)
}

/// The text of a node.
pub fn node_text(source: &[u8], node: &SyntaxNode) -> (out: Option<String>)
    ensures
        out.deep_view() == text_of(source@, node.deep_view()),
{
    source_text(source, node.start_byte, node.end_byte)
}

} // verus!
