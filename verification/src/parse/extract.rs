//! Taking symbols and imports out of a syntax tree.

use vstd::prelude::*;

use crate::numbers;
use crate::parse::{
    FileExtraction, FileExtractionView, ParseImportRecord, ParseImportRecordView,
    ParseSymbolRecord, ParseSymbolRecordView, ParseWarning, ParseWarningView,
};
use crate::syntax;
use crate::syntax::{
    NodeTest, ParseOutcome, ParseOutcomeView, SupportedLanguage, SyntaxNode, SyntaxNodeView,
};
use crate::text;

verus! {

/// A signature is cut to this many bytes.
pub const MAX_SIGNATURE_BYTES: usize = 180;

/// What a symbol is.
#[derive(Debug, Clone, Copy, PartialEq, Eq, Structural)]
pub enum SymbolKind {
    Module,
    Struct,
    Enumeration,
    Trait,
    Implementation,
    Function,
    Method,
    Namespace,
    Class,
    Interface,
    TypeAlias,
    Package,
    Type,
}

impl SymbolKind {
    /// What the kind is called.
    pub open spec fn word(self) -> Seq<char> {
        match self {
            SymbolKind::Module => "module"@,
            SymbolKind::Struct => "struct"@,
            SymbolKind::Enumeration => "enum"@,
            SymbolKind::Trait => "trait"@,
            SymbolKind::Implementation => "impl"@,
            SymbolKind::Function => "function"@,
            SymbolKind::Method => "method"@,
            SymbolKind::Namespace => "namespace"@,
            SymbolKind::Class => "class"@,
            SymbolKind::Interface => "interface"@,
            SymbolKind::TypeAlias => "type_alias"@,
            SymbolKind::Package => "package"@,
            SymbolKind::Type => "type"@,
        }
    }

    /// What the kind is called.
    pub fn name(self) -> (out: &'static str)
        ensures
            out@ == self.word(),
    {
        match self {
            SymbolKind::Module => "module",
            SymbolKind::Struct => "struct",
            SymbolKind::Enumeration => "enum",
            SymbolKind::Trait => "trait",
            SymbolKind::Implementation => "impl",
            SymbolKind::Function => "function",
            SymbolKind::Method => "method",
            SymbolKind::Namespace => "namespace",
            SymbolKind::Class => "class",
            SymbolKind::Interface => "interface",
            SymbolKind::TypeAlias => "type_alias",
            SymbolKind::Package => "package",
            SymbolKind::Type => "type",
        }
    }
}

/// What a node means for the extraction.
#[derive(Debug, Clone, Copy, PartialEq, Eq, Structural)]
pub enum NodeRole {
    /// An import written as a path.
    Use,
    /// An import whose target is a string.
    StringImport,
    /// A module, inline or in a file of its own.
    Module,
    /// An implementation, which is named by its head.
    Implementation,
    /// A named declaration: whether it encloses others as their parent, whether its
    /// complexity is measured, and whether there is something to find inside it.
    Declaration { kind: SymbolKind, scope: bool, measured: bool, inside: bool },
    /// A method that names its type in a receiver.
    ReceiverMethod,
    /// A type with its definition.
    TypeSpec,
    /// Nothing by itself, but there may be something inside it.
    Plain,
    /// Nothing.
    Leaf,
}

/// What a function is: a method inside an implementation or a trait.
pub open spec fn function_kind(in_type: bool) -> SymbolKind {
    if in_type {
        SymbolKind::Method
    } else {
        SymbolKind::Function
    }
}

fn kind_of_function(in_type: bool) -> (kind: SymbolKind)
    ensures
        kind == function_kind(in_type),
{
    if in_type {
        SymbolKind::Method
    } else {
        SymbolKind::Function
    }
}

/// What a kind of node means in a language; `in_type` says whether the innermost
/// enclosing symbol is an implementation or a trait.
pub open spec fn role_of(language: SupportedLanguage, kind: Seq<char>, in_type: bool) -> NodeRole {
    match language {
        SupportedLanguage::Rust => if kind == "use_declaration"@ {
            NodeRole::Use
        } else if kind == "mod_item"@ {
            NodeRole::Module
        } else if kind == "struct_item"@ {
            NodeRole::Declaration { kind: SymbolKind::Struct, scope: false, measured: false, inside: true }
        } else if kind == "enum_item"@ {
            NodeRole::Declaration { kind: SymbolKind::Enumeration, scope: false, measured: false, inside: true }
        } else if kind == "trait_item"@ {
            NodeRole::Declaration { kind: SymbolKind::Trait, scope: true, measured: false, inside: true }
        } else if kind == "impl_item"@ {
            NodeRole::Implementation
        } else if kind == "function_item"@ {
            NodeRole::Declaration { kind: function_kind(in_type), scope: true, measured: true, inside: true }
        } else if kind == "function_signature_item"@ {
            NodeRole::Declaration { kind: function_kind(in_type), scope: false, measured: false, inside: true }
        } else {
            NodeRole::Plain
        },
        SupportedLanguage::Go => if kind == "source_file"@ || kind == "import_declaration"@ || kind == "import_spec_list"@ || kind == "type_declaration"@ {
            NodeRole::Plain
        } else if kind == "package_clause"@ {
            NodeRole::Declaration { kind: SymbolKind::Package, scope: false, measured: false, inside: false }
        } else if kind == "import_spec"@ {
            NodeRole::StringImport
        } else if kind == "function_declaration"@ {
            NodeRole::Declaration { kind: SymbolKind::Function, scope: false, measured: true, inside: false }
        } else if kind == "method_declaration"@ {
            NodeRole::ReceiverMethod
        } else if kind == "type_spec"@ {
            NodeRole::TypeSpec
        } else {
            NodeRole::Leaf
        },
        _ => if kind == "import_statement"@ {
            NodeRole::StringImport
        } else if kind == "internal_module"@ || kind == "module"@ || kind == "module_declaration"@ {
            NodeRole::Declaration { kind: SymbolKind::Namespace, scope: true, measured: false, inside: true }
        } else if kind == "function_declaration"@ {
            NodeRole::Declaration { kind: SymbolKind::Function, scope: true, measured: true, inside: true }
        } else if kind == "method_definition"@ || kind == "method_signature"@ {
            NodeRole::Declaration { kind: SymbolKind::Method, scope: true, measured: true, inside: true }
        } else if kind == "class_declaration"@ {
            NodeRole::Declaration { kind: SymbolKind::Class, scope: true, measured: false, inside: true }
        } else if kind == "interface_declaration"@ {
            NodeRole::Declaration { kind: SymbolKind::Interface, scope: true, measured: false, inside: true }
        } else if kind == "type_alias_declaration"@ {
            NodeRole::Declaration { kind: SymbolKind::TypeAlias, scope: false, measured: false, inside: true }
        } else {
            NodeRole::Plain
        },
    }
}

fn node_role(language: SupportedLanguage, kind: &str, in_type: bool) -> (role: NodeRole)
    ensures
        role == role_of(language, kind@, in_type),
{
    match language {
        SupportedLanguage::Rust => if text::same(kind, "use_declaration") {
            NodeRole::Use
        } else if text::same(kind, "mod_item") {
            NodeRole::Module
        } else if text::same(kind, "struct_item") {
            NodeRole::Declaration { kind: SymbolKind::Struct, scope: false, measured: false, inside: true }
        } else if text::same(kind, "enum_item") {
            NodeRole::Declaration { kind: SymbolKind::Enumeration, scope: false, measured: false, inside: true }
        } else if text::same(kind, "trait_item") {
            NodeRole::Declaration { kind: SymbolKind::Trait, scope: true, measured: false, inside: true }
        } else if text::same(kind, "impl_item") {
            NodeRole::Implementation
        } else if text::same(kind, "function_item") {
            NodeRole::Declaration { kind: kind_of_function(in_type), scope: true, measured: true, inside: true }
        } else if text::same(kind, "function_signature_item") {
            NodeRole::Declaration { kind: kind_of_function(in_type), scope: false, measured: false, inside: true }
        } else {
            NodeRole::Plain
        },
        SupportedLanguage::Go => if text::same(kind, "source_file") || text::same(kind, "import_declaration") || text::same(kind, "import_spec_list") || text::same(kind, "type_declaration") {
            NodeRole::Plain
        } else if text::same(kind, "package_clause") {
            NodeRole::Declaration { kind: SymbolKind::Package, scope: false, measured: false, inside: false }
        } else if text::same(kind, "import_spec") {
            NodeRole::StringImport
        } else if text::same(kind, "function_declaration") {
            NodeRole::Declaration { kind: SymbolKind::Function, scope: false, measured: true, inside: false }
        } else if text::same(kind, "method_declaration") {
            NodeRole::ReceiverMethod
        } else if text::same(kind, "type_spec") {
            NodeRole::TypeSpec
        } else {
            NodeRole::Leaf
        },
        _ => if text::same(kind, "import_statement") {
            NodeRole::StringImport
        } else if text::same(kind, "internal_module") || text::same(kind, "module") || text::same(kind, "module_declaration") {
            NodeRole::Declaration { kind: SymbolKind::Namespace, scope: true, measured: false, inside: true }
        } else if text::same(kind, "function_declaration") {
            NodeRole::Declaration { kind: SymbolKind::Function, scope: true, measured: true, inside: true }
        } else if text::same(kind, "method_definition") || text::same(kind, "method_signature") {
            NodeRole::Declaration { kind: SymbolKind::Method, scope: true, measured: true, inside: true }
        } else if text::same(kind, "class_declaration") {
            NodeRole::Declaration { kind: SymbolKind::Class, scope: true, measured: false, inside: true }
        } else if text::same(kind, "interface_declaration") {
            NodeRole::Declaration { kind: SymbolKind::Interface, scope: true, measured: false, inside: true }
        } else if text::same(kind, "type_alias_declaration") {
            NodeRole::Declaration { kind: SymbolKind::TypeAlias, scope: false, measured: false, inside: true }
        } else {
            NodeRole::Plain
        },
    }
}

/// Whether a node starts another function, which is measured by itself.
pub open spec fn is_boundary(language: SupportedLanguage, kind: Seq<char>) -> bool {
    match language {
        SupportedLanguage::Rust => kind == "function_item"@ || kind == "closure_expression"@,
        SupportedLanguage::Go => kind == "function_declaration"@ || kind == "method_declaration"@,
        SupportedLanguage::TypeScript => kind == "function_declaration"@ || kind == "method_definition"@ || kind == "arrow_function"@ || kind == "function_expression"@,
        SupportedLanguage::Tsx => kind == "function_declaration"@ || kind == "method_definition"@ || kind == "arrow_function"@ || kind == "function_expression"@,
    }
}

/// Whether a node branches or repeats.
pub open spec fn is_control_flow(language: SupportedLanguage, kind: Seq<char>) -> bool {
    match language {
        SupportedLanguage::Rust => kind == "if_expression"@ || kind == "match_expression"@ || kind == "while_expression"@ || kind == "loop_expression"@ || kind == "for_expression"@ || kind == "if_let_expression"@ || kind == "while_let_expression"@,
        SupportedLanguage::Go => kind == "if_statement"@ || kind == "for_statement"@ || kind == "switch_statement"@ || kind == "type_switch_statement"@ || kind == "select_statement"@ || kind == "case_clause"@ || kind == "communication_case"@,
        SupportedLanguage::TypeScript => kind == "if_statement"@ || kind == "for_statement"@ || kind == "for_in_statement"@ || kind == "for_of_statement"@ || kind == "while_statement"@ || kind == "do_statement"@ || kind == "switch_statement"@ || kind == "switch_case"@ || kind == "case_clause"@ || kind == "catch_clause"@ || kind == "conditional_expression"@ || kind == "ternary_expression"@,
        SupportedLanguage::Tsx => kind == "if_statement"@ || kind == "for_statement"@ || kind == "for_in_statement"@ || kind == "for_of_statement"@ || kind == "while_statement"@ || kind == "do_statement"@ || kind == "switch_statement"@ || kind == "switch_case"@ || kind == "case_clause"@ || kind == "catch_clause"@ || kind == "conditional_expression"@ || kind == "ternary_expression"@,
    }
}

fn is_nested_function_boundary(kind: &str, language: SupportedLanguage) -> (r: bool)
    ensures
        r == is_boundary(language, kind@),
{
    match language {
        SupportedLanguage::Rust => text::same(kind, "function_item") || text::same(kind, "closure_expression"),
        SupportedLanguage::Go => text::same(kind, "function_declaration") || text::same(kind, "method_declaration"),
        SupportedLanguage::TypeScript => text::same(kind, "function_declaration") || text::same(kind, "method_definition") || text::same(kind, "arrow_function") || text::same(kind, "function_expression"),
        SupportedLanguage::Tsx => text::same(kind, "function_declaration") || text::same(kind, "method_definition") || text::same(kind, "arrow_function") || text::same(kind, "function_expression"),
    }
}

fn is_control_flow_node(kind: &str, language: SupportedLanguage) -> (r: bool)
    ensures
        r == is_control_flow(language, kind@),
{
    match language {
        SupportedLanguage::Rust => text::same(kind, "if_expression") || text::same(kind, "match_expression") || text::same(kind, "while_expression") || text::same(kind, "loop_expression") || text::same(kind, "for_expression") || text::same(kind, "if_let_expression") || text::same(kind, "while_let_expression"),
        SupportedLanguage::Go => text::same(kind, "if_statement") || text::same(kind, "for_statement") || text::same(kind, "switch_statement") || text::same(kind, "type_switch_statement") || text::same(kind, "select_statement") || text::same(kind, "case_clause") || text::same(kind, "communication_case"),
        SupportedLanguage::TypeScript => text::same(kind, "if_statement") || text::same(kind, "for_statement") || text::same(kind, "for_in_statement") || text::same(kind, "for_of_statement") || text::same(kind, "while_statement") || text::same(kind, "do_statement") || text::same(kind, "switch_statement") || text::same(kind, "switch_case") || text::same(kind, "case_clause") || text::same(kind, "catch_clause") || text::same(kind, "conditional_expression") || text::same(kind, "ternary_expression"),
        SupportedLanguage::Tsx => text::same(kind, "if_statement") || text::same(kind, "for_statement") || text::same(kind, "for_in_statement") || text::same(kind, "for_of_statement") || text::same(kind, "while_statement") || text::same(kind, "do_statement") || text::same(kind, "switch_statement") || text::same(kind, "switch_case") || text::same(kind, "case_clause") || text::same(kind, "catch_clause") || text::same(kind, "conditional_expression") || text::same(kind, "ternary_expression"),
    }
}

/// Those of nested ends that lie behind `j`.
pub open spec fn still_open(open: Seq<int>, j: int) -> Seq<int>
    decreases open.len(),
{
    if open.len() > 0 && open.last() <= j {
        still_open(open.drop_last(), j)
    } else {
        open
    }
}

/// How often control flow branches, and how deep it nests.
#[verifier::ext_equal]
pub struct ControlFlow {
    pub branches: nat,
    pub nesting: nat,
}

/// The larger of two numbers.
pub open spec fn larger(a: nat, b: nat) -> nat {
    if a > b {
        a
    } else {
        b
    }
}

/// The control flow in the nodes from `j` to `end`; `open` are the ends of the control
/// flow nodes around `j`. Other functions, and nodes without a name in the grammar, are
/// left out.
pub open spec fn flow_from(
    tree: Seq<SyntaxNodeView>,
    language: SupportedLanguage,
    j: int,
    end: int,
    open: Seq<int>,
) -> ControlFlow
    decreases tree.len() - j,
{
    if j < 0 || j >= end || j >= tree.len() || !(j < syntax::end_of(tree, j) <= tree.len()) {
        ControlFlow { branches: 0, nesting: 0 }
    } else {
        let live = still_open(open, j);
        if !tree[j].named || is_boundary(language, tree[j].kind) {
            flow_from(tree, language, syntax::end_of(tree, j), end, live)
        } else if is_control_flow(language, tree[j].kind) {
            let rest = flow_from(
                tree,
                language,
                j + 1,
                end,
                live.push(syntax::end_of(tree, j)),
            );
            ControlFlow {
                branches: rest.branches + 1,
                nesting: larger(live.len() + 1, rest.nesting),
            }
        } else {
            flow_from(tree, language, j + 1, end, live)
        }
    }
}

/// The control flow inside node `i`.
pub open spec fn flow_in(
    tree: Seq<SyntaxNodeView>,
    language: SupportedLanguage,
    i: int,
) -> ControlFlow {
    flow_from(tree, language, i + 1, syntax::end_of(tree, i), Seq::empty())
}

spec fn ends_of(open: Seq<usize>) -> Seq<int> {
    Seq::new(open.len(), |k: int| open[k] as int)
}

fn close_ends(open: &mut Vec<usize>, j: usize)
    ensures
        ends_of(final(open)@) == still_open(ends_of(old(open)@), j as int),
        final(open)@.len() <= old(open)@.len(),
{
    let ghost all = ends_of(open@);
    while open.len() > 0 && open[open.len() - 1] <= j
        invariant
            still_open(all, j as int) == still_open(ends_of(open@), j as int),
            open@.len() <= all.len(),
        decreases open.len(),
    {
        let ghost before = open@;
        open.pop();
        assert(ends_of(open@) =~= ends_of(before).drop_last());
    }
}

/// Cyclomatic complexity and nesting of the control flow inside a node.
struct Complexity {
    cyclomatic_complexity: u64,
    max_control_flow_nesting: u64,
}

fn complexity_for(nodes: &[SyntaxNode], i: usize, language: SupportedLanguage) -> (out: Complexity)
    requires
        i < nodes.len(),
    ensures
        out.cyclomatic_complexity == 1 + flow_in(nodes.deep_view(), language, i as int).branches,
        out.max_control_flow_nesting == flow_in(nodes.deep_view(), language, i as int).nesting,
{
    let ghost tree = nodes.deep_view();
    let end: usize = syntax::end_index(nodes, i);
    let ghost whole = flow_from(tree, language, i + 1, end as int, Seq::empty());
    let mut open: Vec<usize> = Vec::new();
    let mut branches: u64 = 0;
    let mut nesting: u64 = 0;
    let mut j: usize = i + 1;
    assert(ends_of(open@) =~= Seq::<int>::empty());
    while j < end
        invariant
            i < j,
            end <= nodes.len(),
            tree == nodes.deep_view(),
            open.len() < j,
            branches < j,
            nesting < j,
            whole.branches == branches + flow_from(
                tree,
                language,
                j as int,
                end as int,
                ends_of(open@),
            ).branches,
            whole.nesting == larger(
                nesting as nat,
                flow_from(tree, language, j as int, end as int, ends_of(open@)).nesting,
            ),
        decreases nodes.len() - j,
    {
        let node = &nodes[j];
        assert(tree[j as int] == node.deep_view());
        let after: usize = syntax::end_index(nodes, j);
        close_ends(&mut open, j);
        if !node.named || is_nested_function_boundary(node.kind.as_str(), language) {
            j = after;
        } else if is_control_flow_node(node.kind.as_str(), language) {
            branches = branches + 1;
            let depth: u64 = open.len() as u64 + 1;
            if depth > nesting {
                nesting = depth;
            }
            let ghost before = open@;
            open.push(after);
            assert(ends_of(open@) =~= ends_of(before).push(after as int));
            j = j + 1;
        } else {
            j = j + 1;
        }
    }
    Complexity { cyclomatic_complexity: 1 + branches, max_control_flow_nesting: nesting }
}

/// A text, unless it is empty.
pub open spec fn non_empty(s: Seq<char>) -> Option<Seq<char>> {
    if s.len() == 0 {
        None
    } else {
        Some(s)
    }
}

fn unless_empty(s: String) -> (out: Option<String>)
    ensures
        out.deep_view() == non_empty(s@),
{
    if s.as_str().is_empty() {
        None
    } else {
        Some(s)
    }
}

/// The text of a node with single spaces, where it holds any.
pub open spec fn label_of(source: Seq<u8>, node: SyntaxNodeView) -> Option<Seq<char>> {
    match syntax::text_of(source, node) {
        Some(label) => non_empty(text::compacted(label)),
        None => None,
    }
}

fn node_label(source: &[u8], node: &SyntaxNode) -> (out: Option<String>)
    ensures
        out.deep_view() == label_of(source@, node.deep_view()),
{
    match syntax::node_text(source, node) {
        Some(label) => unless_empty(text::compact(label.as_str())),
        None => None,
    }
}

/// The name of node `i`: what its `name` field holds, else its first identifier.
pub open spec fn name_of(tree: Seq<SyntaxNodeView>, source: Seq<u8>, i: int) -> Option<Seq<char>> {
    match syntax::child_of(tree, i, NodeTest::NameField) {
        Some(j) => label_of(source, tree[j]),
        None => match syntax::child_of(tree, i, NodeTest::Identifier) {
            Some(j) => label_of(source, tree[j]),
            None => None,
        },
    }
}

fn node_name(nodes: &[SyntaxNode], source: &[u8], i: usize) -> (out: Option<String>)
    requires
        i < nodes.len(),
    ensures
        out.deep_view() == name_of(nodes.deep_view(), source@, i as int),
{
    match syntax::find_child(nodes, i, NodeTest::NameField) {
        Some(j) => node_label(source, &nodes[j]),
        None => match syntax::find_child(nodes, i, NodeTest::Identifier) {
            Some(j) => node_label(source, &nodes[j]),
            None => None,
        },
    }
}

/// The largest character boundary that is not above `n`.
pub open spec fn boundary_at(bytes: Seq<u8>, n: int) -> int
    decreases n,
{
    if n <= 0 || vstd::utf8::is_char_boundary(bytes, n) {
        n
    } else {
        boundary_at(bytes, n - 1)
    }
}

/// A text cut to at most `limit` bytes.
pub open spec fn cut(s: Seq<char>, limit: int) -> Seq<char> {
    let bytes = vstd::utf8::encode_utf8(s);
    if bytes.len() <= limit {
        s
    } else {
        vstd::utf8::decode_utf8(bytes.take(boundary_at(bytes, limit)))
    }
}

fn truncate_at_char_boundary(s: &str, max_bytes: usize) -> (out: &str)
    ensures
        out@ == cut(s@, max_bytes as int),
{
    let bytes = s.as_bytes();
    if bytes.len() <= max_bytes {
        return s;
    }
    let ghost encoded = vstd::utf8::encode_utf8(s@);
    let mut end: usize = max_bytes;
    proof {
        vstd::utf8::encode_utf8_valid_utf8(s@);
    }
    while end > 0 && !s.is_char_boundary(end)
        invariant
            end <= max_bytes,
            encoded == vstd::utf8::encode_utf8(s@),
            boundary_at(encoded, max_bytes as int) == boundary_at(encoded, end as int),
        decreases end,
    {
        end = end - 1;
    }
    assert(vstd::utf8::is_char_boundary(encoded, end as int)) by {
        vstd::utf8::is_char_boundary_start_end_of_seq(encoded);
    }
    let (front, _) = s.split_at(end);
    proof {
        assert(vstd::utf8::encode_utf8(front@) =~= encoded.take(end as int));
        vstd::utf8::encode_utf8_decode_utf8(front@);
    }
    front
}

/// Where the head of the declaration in node `i` ends.
pub open spec fn head_end(tree: Seq<SyntaxNodeView>, i: int) -> int {
    match syntax::child_of(tree, i, NodeTest::BodyField) {
        Some(j) => tree[j].start_byte as int,
        None => match syntax::child_of(tree, i, NodeTest::Body) {
            Some(j) => tree[j].start_byte as int,
            None => tree[i].end_byte as int,
        },
    }
}

fn signature_end_byte(nodes: &[SyntaxNode], i: usize) -> (end: usize)
    requires
        i < nodes.len(),
    ensures
        end == head_end(nodes.deep_view(), i as int),
{
    match syntax::find_child(nodes, i, NodeTest::BodyField) {
        Some(j) => nodes[j].start_byte,
        None => match syntax::find_child(nodes, i, NodeTest::Body) {
            Some(j) => nodes[j].start_byte,
            None => nodes[i].end_byte,
        },
    }
}

/// The head of a declaration with single spaces, without its opening brace or closing
/// semicolon, cut to the longest signature.
pub open spec fn signature_of(tree: Seq<SyntaxNodeView>, source: Seq<u8>, i: int) -> Option<
    Seq<char>,
> {
    match syntax::text_between(source, tree[i].start_byte as int, head_end(tree, i)) {
        None => None,
        Some(head) => {
            let bare = text::trimmed(
                text::strip_end(text::strip_end(text::compacted(head), '{'), ';'),
            );
            if bare.len() == 0 {
                None
            } else if vstd::utf8::encode_utf8(bare).len() <= MAX_SIGNATURE_BYTES {
                Some(bare)
            } else {
                Some(text::trim_end(cut(bare, MAX_SIGNATURE_BYTES as int)))
            }
        },
    }
}

fn concise_signature(nodes: &[SyntaxNode], source: &[u8], i: usize) -> (out: Option<String>)
    requires
        i < nodes.len(),
    ensures
        out.deep_view() == signature_of(nodes.deep_view(), source@, i as int),
{
    let end: usize = signature_end_byte(nodes, i);
    let head = match syntax::source_text(source, nodes[i].start_byte, end) {
        Some(head) => head,
        None => return None,
    };
    let compact = text::compact(head.as_str());
    let braceless = text::trim_end_char(compact.as_str(), '{');
    let open = text::trim_end_char(braceless.as_str(), ';');
    let bare = text::trim(open.as_str());
    if bare.as_str().is_empty() {
        return None;
    }
    let bytes = bare.as_str().as_bytes();
    if bytes.len() <= MAX_SIGNATURE_BYTES {
        return Some(bare);
    }
    let front = truncate_at_char_boundary(bare.as_str(), MAX_SIGNATURE_BYTES);
    Some(text::trim_end_white(front))
}

/// The target of an import that is written as a path.
pub open spec fn use_target(declaration: Seq<char>) -> Option<Seq<char>> {
    let whole = text::trimmed(declaration);
    let bare = match text::without_prefix(whole, "use"@) {
        Some(rest) => rest,
        None => whole,
    };
    non_empty(
        text::compacted(text::trimmed(text::strip_end(text::trimmed(bare), ';'))),
    )
}

fn rust_use_target(declaration: &str) -> (out: Option<String>)
    ensures
        out.deep_view() == use_target(declaration@),
{
    let whole = text::trim(declaration);
    let bare = match text::strip_prefix(whole.as_str(), "use") {
        Some(rest) => rest,
        None => whole,
    };
    let trimmed = text::trim(bare.as_str());
    let open = text::trim_end_char(trimmed.as_str(), ';');
    let target = text::trim(open.as_str());
    unless_empty(text::compact(target.as_str()))
}

/// What stands between two characters `quote`.
pub open spec fn between(s: Seq<char>, quote: char) -> Option<Seq<char>> {
    if s.len() >= 2 && s[0] == quote && s.last() == quote {
        Some(s.subrange(1, s.len() - 1))
    } else {
        None
    }
}

/// A string literal without its quotes, where something is left.
pub open spec fn unquoted(literal: Seq<char>) -> Option<Seq<char>> {
    let s = text::trimmed(literal);
    match between(s, '"') {
        Some(inner) => non_empty(inner),
        None => match between(s, '`') {
            Some(inner) => non_empty(inner),
            None => match between(s, '\'') {
                Some(inner) => non_empty(inner),
                None => non_empty(s),
            },
        },
    }
}

fn inside_quotes(chars: &[char], quote: char) -> (out: Option<String>)
    ensures
        out.deep_view() == between(chars@, quote),
{
    let n: usize = chars.len();
    if n >= 2 && chars[0] == quote && chars[n - 1] == quote {
        Some(text::string_of(vstd::slice::slice_subrange(chars, 1, n - 1)))
    } else {
        None
    }
}

fn strip_string_quotes(literal: &str) -> (out: Option<String>)
    ensures
        out.deep_view() == unquoted(literal@),
{
    let trimmed = text::trim(literal);
    let chars = text::chars_of(trimmed.as_str());
    if let Some(inner) = inside_quotes(chars.as_slice(), '"') {
        return unless_empty(inner);
    }
    if let Some(inner) = inside_quotes(chars.as_slice(), '`') {
        return unless_empty(inner);
    }
    if let Some(inner) = inside_quotes(chars.as_slice(), '\'') {
        return unless_empty(inner);
    }
    unless_empty(trimmed)
}

/// The target of an import whose target is a string: the first string literal in node
/// `i`, without its quotes.
pub open spec fn string_target_of(
    tree: Seq<SyntaxNodeView>,
    source: Seq<u8>,
    i: int,
) -> Option<Seq<char>> {
    match syntax::named_from(tree, i, syntax::end_of(tree, i), NodeTest::StringLiteral) {
        Some(j) => match syntax::text_of(source, tree[j]) {
            Some(literal) => unquoted(literal),
            None => None,
        },
        None => None,
    }
}

fn string_target(nodes: &[SyntaxNode], source: &[u8], i: usize) -> (out: Option<String>)
    requires
        i < nodes.len(),
    ensures
        out.deep_view() == string_target_of(nodes.deep_view(), source@, i as int),
{
    let end: usize = syntax::end_index(nodes, i);
    match syntax::find_named(nodes, i, end, NodeTest::StringLiteral) {
        Some(j) => match syntax::node_text(source, &nodes[j]) {
            Some(literal) => strip_string_quotes(literal.as_str()),
            None => None,
        },
        None => None,
    }
}

/// The type that a receiver names: its last word, without parentheses and pointer signs.
pub open spec fn receiver_type(receiver: Seq<char>) -> Option<Seq<char>> {
    let bare = text::strip_end(text::strip_start(text::trimmed(receiver), '('), ')');
    let words = text::words(bare);
    if words.len() == 0 {
        None
    } else {
        non_empty(
            text::trimmed(text::strip_start(text::strip_start(words.last(), '*'), '&')),
        )
    }
}

fn receiver_type_name(receiver: &str) -> (out: Option<String>)
    ensures
        out.deep_view() == receiver_type(receiver@),
{
    let trimmed = text::trim(receiver);
    let opened = text::trim_start_char(trimmed.as_str(), '(');
    let bare = text::trim_end_char(opened.as_str(), ')');
    let words = text::words_of(bare.as_str());
    if words.len() == 0 {
        return None;
    }
    let last = &words[words.len() - 1];
    assert(words.deep_view().last() == last@);
    let value = text::trim_start_char(last.as_str(), '*');
    let place = text::trim_start_char(value.as_str(), '&');
    unless_empty(text::trim(place.as_str()))
}

/// The type that the receiver of the method in node `i` names.
pub open spec fn receiver_of(tree: Seq<SyntaxNodeView>, source: Seq<u8>, i: int) -> Option<
    Seq<char>,
> {
    match syntax::child_of(tree, i, NodeTest::ReceiverField) {
        Some(j) => match syntax::text_of(source, tree[j]) {
            Some(receiver) => receiver_type(receiver),
            None => None,
        },
        None => None,
    }
}

fn go_receiver_name(nodes: &[SyntaxNode], source: &[u8], i: usize) -> (out: Option<String>)
    requires
        i < nodes.len(),
    ensures
        out.deep_view() == receiver_of(nodes.deep_view(), source@, i as int),
{
    match syntax::find_child(nodes, i, NodeTest::ReceiverField) {
        Some(j) => match syntax::node_text(source, &nodes[j]) {
            Some(receiver) => receiver_type_name(receiver.as_str()),
            None => None,
        },
        None => None,
    }
}

/// What the type in node `i` is, by what its definition holds.
pub open spec fn type_kind_of(tree: Seq<SyntaxNodeView>, i: int) -> SymbolKind {
    let end = syntax::end_of(tree, i);
    if syntax::named_from(tree, i + 1, end, NodeTest::StructType) is Some {
        SymbolKind::Struct
    } else if syntax::named_from(tree, i + 1, end, NodeTest::InterfaceType) is Some {
        SymbolKind::Interface
    } else {
        SymbolKind::Type
    }
}

fn go_type_kind(nodes: &[SyntaxNode], i: usize) -> (kind: SymbolKind)
    requires
        i < nodes.len(),
    ensures
        kind == type_kind_of(nodes.deep_view(), i as int),
{
    let end: usize = syntax::end_index(nodes, i);
    if syntax::find_named(nodes, i + 1, end, NodeTest::StructType).is_some() {
        SymbolKind::Struct
    } else if syntax::find_named(nodes, i + 1, end, NodeTest::InterfaceType).is_some() {
        SymbolKind::Interface
    } else {
        SymbolKind::Type
    }
}

/// A symbol that encloses others, and where the nodes inside it end.
pub struct Scope {
    pub name: String,
    pub kind: SymbolKind,
    pub end: usize,
}

/// What a scope stands for.
#[verifier::ext_equal]
pub struct ScopeView {
    pub name: Seq<char>,
    pub kind: SymbolKind,
    pub end: int,
}

impl DeepView for Scope {
    type V = ScopeView;

    open spec fn deep_view(&self) -> ScopeView {
        ScopeView { name: self.name@, kind: self.kind, end: self.end as int }
    }
}

/// Those of nested scopes that node `i` lies in.
pub open spec fn scopes_at(scopes: Seq<ScopeView>, i: int) -> Seq<ScopeView>
    decreases scopes.len(),
{
    if scopes.len() > 0 && scopes.last().end <= i {
        scopes_at(scopes.drop_last(), i)
    } else {
        scopes
    }
}

fn leave_scopes(scopes: &mut Vec<Scope>, i: usize)
    ensures
        final(scopes).deep_view() == scopes_at(old(scopes).deep_view(), i as int),
{
    let ghost all = scopes.deep_view();
    while scopes.len() > 0 && scopes[scopes.len() - 1].end <= i
        invariant
            scopes_at(all, i as int) == scopes_at(scopes.deep_view(), i as int),
        decreases scopes.len(),
    {
        let ghost before = scopes.deep_view();
        assert(before.last() == scopes@.last().deep_view());
        scopes.pop();
        assert(scopes.deep_view() =~= before.drop_last());
    }
    assert(scopes.len() > 0 ==> scopes.deep_view().last() == scopes@.last().deep_view());
}

/// Whether the innermost scope is an implementation or a trait.
pub open spec fn in_type(scopes: Seq<ScopeView>) -> bool {
    scopes.len() > 0 && (scopes.last().kind == SymbolKind::Implementation || scopes.last().kind
        == SymbolKind::Trait)
}

/// The names of the scopes, outermost first.
pub open spec fn scope_names(scopes: Seq<ScopeView>) -> Seq<Seq<char>> {
    Seq::new(scopes.len(), |k: int| scopes[k].name)
}

/// The names of the scopes as one path.
pub open spec fn parent_path_of(scopes: Seq<ScopeView>) -> Option<Seq<char>> {
    if scopes.len() == 0 {
        None
    } else {
        Some(text::joined(scope_names(scopes), "::"@))
    }
}

fn parent_path(scopes: &Vec<Scope>) -> (out: Option<String>)
    ensures
        out.deep_view() == parent_path_of(scopes.deep_view()),
{
    let ghost all = scopes.deep_view();
    if scopes.len() == 0 {
        return None;
    }
    let mut names: Vec<String> = Vec::new();
    let mut i: usize = 0;
    while i < scopes.len()
        invariant
            i <= scopes.len(),
            all == scopes.deep_view(),
            names.deep_view() == scope_names(all).take(i as int),
        decreases scopes.len() - i,
    {
        let ghost before = names.deep_view();
        let name = scopes[i].name.clone();
        assert(all[i as int].name == name@);
        names.push(name);
        assert(names.deep_view() =~= before.push(name@));
        i = i + 1;
        assert(names.deep_view() =~= scope_names(all).take(i as int));
    }
    assert(scope_names(all).take(i as int) =~= scope_names(all));
    Some(text::join(names.as_slice(), "::"))
}

/// What one node gives.
#[verifier::ext_equal]
pub struct StepView {
    pub symbol: Option<ParseSymbolRecordView>,
    pub import: Option<ParseImportRecordView>,
    /// The scope that the node opens.
    pub scope: Option<ScopeView>,
    /// Whether the nodes inside it are looked at.
    pub inside: bool,
}

/// What one node gives.
pub struct Step {
    pub symbol: Option<ParseSymbolRecord>,
    pub import: Option<ParseImportRecord>,
    pub scope: Option<Scope>,
    pub inside: bool,
}

impl DeepView for Step {
    type V = StepView;

    open spec fn deep_view(&self) -> StepView {
        StepView {
            symbol: self.symbol.deep_view(),
            import: self.import.deep_view(),
            scope: self.scope.deep_view(),
            inside: self.inside,
        }
    }
}

/// A source and where it is kept.
#[verifier::ext_equal]
pub struct SourceView {
    pub path: Seq<char>,
    pub language: SupportedLanguage,
    pub bytes: Seq<u8>,
    pub tree: Seq<SyntaxNodeView>,
}

/// The symbol that node `i` declares.
pub open spec fn symbol_at(
    source: SourceView,
    i: int,
    scopes: Seq<ScopeView>,
    name: Seq<char>,
    kind: SymbolKind,
    measured: bool,
    parent: Option<Seq<char>>,
) -> ParseSymbolRecordView {
    let node = source.tree[i];
    let flow = flow_in(source.tree, source.language, i);
    ParseSymbolRecordView {
        path: source.path,
        name,
        kind: kind.word(),
        start_line: (node.start_row + 1) as u64,
        end_line: (node.end_row + 1) as u64,
        signature: signature_of(source.tree, source.bytes, i),
        nesting_depth: scopes.len() as u64,
        parent: match parent {
            Some(_) => parent,
            None => parent_path_of(scopes),
        },
        cyclomatic_complexity: if measured {
            Some((1 + flow.branches) as u64)
        } else {
            None
        },
        max_control_flow_nesting: if measured {
            Some(flow.nesting as u64)
        } else {
            None
        },
    }
}

/// The import that node `i` makes.
pub open spec fn import_at(
    source: SourceView,
    i: int,
    target: Seq<char>,
    kind: Seq<char>,
) -> ParseImportRecordView {
    ParseImportRecordView {
        path: source.path,
        target,
        kind,
        start_line: (source.tree[i].start_row + 1) as u64,
        end_line: (source.tree[i].end_row + 1) as u64,
    }
}

/// A node that gives nothing by itself.
pub open spec fn plain_step(inside: bool) -> StepView {
    StepView { symbol: None, import: None, scope: None, inside }
}

/// What node `i` gives, inside the scopes around it.
pub open spec fn step_at(source: SourceView, i: int, scopes: Seq<ScopeView>) -> StepView {
    let tree = source.tree;
    let name = name_of(tree, source.bytes, i);
    let end = syntax::end_of(tree, i);
    match role_of(source.language, tree[i].kind, in_type(scopes)) {
        NodeRole::Use => {
            let target = match syntax::text_of(source.bytes, tree[i]) {
                Some(declaration) => use_target(declaration),
                None => None,
            };
            StepView {
                import: match target {
                    Some(target) => Some(import_at(source, i, target, "use"@)),
                    None => None,
                },
                ..plain_step(false)
            }
        },
        NodeRole::StringImport => StepView {
            import: match string_target_of(tree, source.bytes, i) {
                Some(target) => Some(import_at(source, i, target, "import"@)),
                None => None,
            },
            ..plain_step(false)
        },
        NodeRole::Module => match name {
            None => plain_step(true),
            Some(name) => StepView {
                symbol: Some(
                    symbol_at(source, i, scopes, name, SymbolKind::Module, false, None),
                ),
                import: if syntax::child_of(tree, i, NodeTest::BodyField) is None {
                    Some(import_at(source, i, name, "mod"@))
                } else {
                    None
                },
                scope: Some(ScopeView { name, kind: SymbolKind::Module, end }),
                inside: true,
            },
        },
        NodeRole::Implementation => {
            let name = match signature_of(tree, source.bytes, i) {
                Some(signature) => if signature.len() == 0 {
                    "impl"@
                } else {
                    signature
                },
                None => "impl"@,
            };
            StepView {
                symbol: Some(
                    symbol_at(source, i, scopes, name, SymbolKind::Implementation, false, None),
                ),
                import: None,
                scope: Some(ScopeView { name, kind: SymbolKind::Implementation, end }),
                inside: true,
            }
        },
        NodeRole::Declaration { kind, scope, measured, inside } => match name {
            None => plain_step(inside),
            Some(name) => StepView {
                symbol: Some(symbol_at(source, i, scopes, name, kind, measured, None)),
                import: None,
                scope: if scope {
                    Some(ScopeView { name, kind, end })
                } else {
                    None
                },
                inside,
            },
        },
        NodeRole::ReceiverMethod => match name {
            None => plain_step(false),
            Some(name) => StepView {
                symbol: Some(
                    symbol_at(
                        source,
                        i,
                        scopes,
                        name,
                        SymbolKind::Method,
                        true,
                        receiver_of(tree, source.bytes, i),
                    ),
                ),
                ..plain_step(false)
            },
        },
        NodeRole::TypeSpec => match name {
            None => plain_step(false),
            Some(name) => StepView {
                symbol: Some(
                    symbol_at(source, i, scopes, name, type_kind_of(tree, i), false, None),
                ),
                ..plain_step(false)
            },
        },
        NodeRole::Plain => plain_step(true),
        NodeRole::Leaf => plain_step(false),
    }
}

/// Symbols and imports, in the order in which their nodes start.
#[verifier::ext_equal]
pub struct Findings {
    pub symbols: Seq<ParseSymbolRecordView>,
    pub imports: Seq<ParseImportRecordView>,
}

/// A value in front, where there is one.
pub open spec fn with_first<A>(first: Option<A>, rest: Seq<A>) -> Seq<A> {
    match first {
        Some(a) => seq![a] + rest,
        None => rest,
    }
}

/// The scopes inside a node.
pub open spec fn with_scope(scopes: Seq<ScopeView>, scope: Option<ScopeView>) -> Seq<ScopeView> {
    match scope {
        Some(scope) => scopes.push(scope),
        None => scopes,
    }
}

/// What the nodes from `i` on give; nodes that have no name in the grammar give nothing,
/// nor do the nodes inside them.
pub open spec fn findings_from(source: SourceView, i: int, scopes: Seq<ScopeView>) -> Findings
    decreases source.tree.len() - i,
{
    let tree = source.tree;
    let end = syntax::end_of(tree, i);
    if i < 0 || i >= tree.len() || !(i < end <= tree.len()) {
        Findings { symbols: Seq::empty(), imports: Seq::empty() }
    } else {
        let live = scopes_at(scopes, i);
        if !tree[i].named {
            findings_from(source, end, live)
        } else {
            let step = step_at(source, i, live);
            let next = if step.inside {
                i + 1
            } else {
                end
            };
            let rest = findings_from(source, next, with_scope(live, step.scope));
            Findings {
                symbols: with_first(step.symbol, rest.symbols),
                imports: with_first(step.import, rest.imports),
            }
        }
    }
}

fn symbol_record(
    path: &str,
    language: SupportedLanguage,
    bytes: &[u8],
    nodes: &[SyntaxNode],
    i: usize,
    scopes: &Vec<Scope>,
    name: &str,
    kind: SymbolKind,
    measured: bool,
    parent: Option<String>,
) -> (out: ParseSymbolRecord)
    requires
        i < nodes.len(),
    ensures
        out.deep_view() == symbol_at(
            SourceView { path: path@, language, bytes: bytes@, tree: nodes.deep_view() },
            i as int,
            scopes.deep_view(),
            name@,
            kind,
            measured,
            parent.deep_view(),
        ),
{
    let node = &nodes[i];
    assert(nodes.deep_view()[i as int] == node.deep_view());
    let (branches, nesting): (Option<u64>, Option<u64>) = if measured {
        let complexity = complexity_for(nodes, i, language);
        (Some(complexity.cyclomatic_complexity), Some(complexity.max_control_flow_nesting))
    } else {
        (None, None)
    };
    let parent = match parent {
        Some(parent) => Some(parent),
        None => parent_path(scopes),
    };
    ParseSymbolRecord {
        path: path.to_string(),
        name: name.to_string(),
        kind: kind.name().to_string(),
        start_line: node.start_row as u64 + 1,
        end_line: node.end_row as u64 + 1,
        signature: concise_signature(nodes, bytes, i),
        nesting_depth: scopes.len() as u64,
        parent,
        cyclomatic_complexity: branches,
        max_control_flow_nesting: nesting,
    }
}

fn import_record(path: &str, nodes: &[SyntaxNode], i: usize, target: &str, kind: &str) -> (out:
    ParseImportRecord)
    requires
        i < nodes.len(),
    ensures
        forall|language: SupportedLanguage, bytes: Seq<u8>|
            out.deep_view() == #[trigger] import_at(
                SourceView { path: path@, language, bytes, tree: nodes.deep_view() },
                i as int,
                target@,
                kind@,
            ),
{
    let node = &nodes[i];
    assert(nodes.deep_view()[i as int] == node.deep_view());
    ParseImportRecord {
        path: path.to_string(),
        target: target.to_string(),
        kind: kind.to_string(),
        start_line: node.start_row as u64 + 1,
        end_line: node.end_row as u64 + 1,
    }
}

fn walk_node(
    path: &str,
    language: SupportedLanguage,
    bytes: &[u8],
    nodes: &[SyntaxNode],
    i: usize,
    scopes: &Vec<Scope>,
) -> (out: Step)
    requires
        i < nodes.len(),
    ensures
        out.deep_view() == step_at(
            SourceView { path: path@, language, bytes: bytes@, tree: nodes.deep_view() },
            i as int,
            scopes.deep_view(),
        ),
{
    let node = &nodes[i];
    assert(nodes.deep_view()[i as int] == node.deep_view());
    let in_type = scopes.len() > 0 && {
        let kind = scopes[scopes.len() - 1].kind;
        assert(scopes.deep_view().last() == scopes@.last().deep_view());
        kind == SymbolKind::Implementation || kind == SymbolKind::Trait
    };
    let end: usize = syntax::end_index(nodes, i);
    match node_role(language, node.kind.as_str(), in_type) {
        NodeRole::Use => {
            let target = match syntax::node_text(bytes, node) {
                Some(declaration) => rust_use_target(declaration.as_str()),
                None => None,
            };
            let import = match target {
                Some(target) => Some(import_record(path, nodes, i, target.as_str(), "use")),
                None => None,
            };
            Step { symbol: None, import, scope: None, inside: false }
        },
        NodeRole::StringImport => {
            let import = match string_target(nodes, bytes, i) {
                Some(target) => Some(import_record(path, nodes, i, target.as_str(), "import")),
                None => None,
            };
            Step { symbol: None, import, scope: None, inside: false }
        },
        NodeRole::Module => match node_name(nodes, bytes, i) {
            None => Step { symbol: None, import: None, scope: None, inside: true },
            Some(name) => {
                let import = if syntax::find_child(nodes, i, NodeTest::BodyField).is_none() {
                    Some(import_record(path, nodes, i, name.as_str(), "mod"))
                } else {
                    None
                };
                let kind = SymbolKind::Module;
                let symbol = symbol_record(
                    path,
                    language,
                    bytes,
                    nodes,
                    i,
                    scopes,
                    name.as_str(),
                    kind,
                    false,
                    None,
                );
                let scope = Scope { name, kind, end };
                Step { symbol: Some(symbol), import, scope: Some(scope), inside: true }
            },
        },
        NodeRole::Implementation => {
            let signature = match concise_signature(nodes, bytes, i) {
                Some(signature) => unless_empty(signature),
                None => None,
            };
            let name = match signature {
                Some(signature) => signature,
                None => "impl".to_string(),
            };
            let kind = SymbolKind::Implementation;
            let symbol = symbol_record(
                path,
                language,
                bytes,
                nodes,
                i,
                scopes,
                name.as_str(),
                kind,
                false,
                None,
            );
            let scope = Scope { name, kind, end };
            Step { symbol: Some(symbol), import: None, scope: Some(scope), inside: true }
        },
        NodeRole::Declaration { kind, scope, measured, inside } => match node_name(
            nodes,
            bytes,
            i,
        ) {
            None => Step { symbol: None, import: None, scope: None, inside },
            Some(name) => {
                let symbol = symbol_record(
                    path,
                    language,
                    bytes,
                    nodes,
                    i,
                    scopes,
                    name.as_str(),
                    kind,
                    measured,
                    None,
                );
                let scope = if scope {
                    Some(Scope { name, kind, end })
                } else {
                    None
                };
                Step { symbol: Some(symbol), import: None, scope, inside }
            },
        },
        NodeRole::ReceiverMethod => match node_name(nodes, bytes, i) {
            None => Step { symbol: None, import: None, scope: None, inside: false },
            Some(name) => {
                let receiver = go_receiver_name(nodes, bytes, i);
                let symbol = symbol_record(
                    path,
                    language,
                    bytes,
                    nodes,
                    i,
                    scopes,
                    name.as_str(),
                    SymbolKind::Method,
                    true,
                    receiver,
                );
                Step { symbol: Some(symbol), import: None, scope: None, inside: false }
            },
        },
        NodeRole::TypeSpec => match node_name(nodes, bytes, i) {
            None => Step { symbol: None, import: None, scope: None, inside: false },
            Some(name) => {
                let kind = go_type_kind(nodes, i);
                let symbol = symbol_record(
                    path,
                    language,
                    bytes,
                    nodes,
                    i,
                    scopes,
                    name.as_str(),
                    kind,
                    false,
                    None,
                );
                Step { symbol: Some(symbol), import: None, scope: None, inside: false }
            },
        },
        NodeRole::Plain => Step { symbol: None, import: None, scope: None, inside: true },
        NodeRole::Leaf => Step { symbol: None, import: None, scope: None, inside: false },
    }
}

/// Takes symbols and imports out of a syntax tree.
fn walk_tree(path: &str, language: SupportedLanguage, bytes: &[u8], nodes: &[SyntaxNode]) -> (out: (
    Vec<ParseSymbolRecord>,
    Vec<ParseImportRecord>,
))
    ensures
        ({
            let source = SourceView {
                path: path@,
                language,
                bytes: bytes@,
                tree: nodes.deep_view(),
            };
            let found = findings_from(source, 0, Seq::empty());
            out.0.deep_view() == found.symbols && out.1.deep_view() == found.imports
        }),
{
    let ghost source = SourceView { path: path@, language, bytes: bytes@, tree: nodes.deep_view() };
    let ghost found = findings_from(source, 0, Seq::empty());
    let mut symbols: Vec<ParseSymbolRecord> = Vec::new();
    let mut imports: Vec<ParseImportRecord> = Vec::new();
    let mut scopes: Vec<Scope> = Vec::new();
    let mut i: usize = 0;
    assert(scopes.deep_view() =~= Seq::<ScopeView>::empty());
    while i < nodes.len()
        invariant
            i <= nodes.len(),
            source == (SourceView {
                path: path@,
                language,
                bytes: bytes@,
                tree: nodes.deep_view(),
            }),
            found.symbols == symbols.deep_view() + findings_from(
                source,
                i as int,
                scopes.deep_view(),
            ).symbols,
            found.imports == imports.deep_view() + findings_from(
                source,
                i as int,
                scopes.deep_view(),
            ).imports,
        decreases nodes.len() - i,
    {
        assert(source.tree[i as int] == nodes@[i as int].deep_view());
        let end: usize = syntax::end_index(nodes, i);
        leave_scopes(&mut scopes, i);
        if !nodes[i].named {
            i = end;
        } else {
            let step = walk_node(path, language, bytes, nodes, i, &scopes);
            let ghost given = step.deep_view();
            let ghost live = scopes.deep_view();
            let ghost before = (symbols.deep_view(), imports.deep_view());
            let inside = step.inside;
            if let Some(symbol) = step.symbol {
                symbols.push(symbol);
                assert(symbols.deep_view() =~= before.0.push(given.symbol->0));
            }
            if let Some(import) = step.import {
                imports.push(import);
                assert(imports.deep_view() =~= before.1.push(given.import->0));
            }
            if let Some(scope) = step.scope {
                scopes.push(scope);
                assert(scopes.deep_view() =~= live.push(given.scope->0));
            }
            assert(scopes.deep_view() == with_scope(live, given.scope));
            if inside {
                i = i + 1;
            } else {
                i = end;
            }
            proof {
                let rest = findings_from(source, i as int, scopes.deep_view());
                assert(symbols.deep_view() + rest.symbols =~= before.0 + with_first(
                    given.symbol,
                    rest.symbols,
                ));
                assert(imports.deep_view() + rest.imports =~= before.1 + with_first(
                    given.import,
                    rest.imports,
                ));
            }
        }
    }
    assert(symbols.deep_view() =~= found.symbols);
    assert(imports.deep_view() =~= found.imports);
    (symbols, imports)
}

/// The line of the first part of the source that could not be parsed, else that of the
/// root.
pub open spec fn error_line_of(tree: Seq<SyntaxNodeView>) -> int {
    match syntax::named_from(tree, 0, tree.len() as int, NodeTest::Error) {
        Some(j) => tree[j].start_row + 1,
        None => if tree.len() > 0 {
            tree[0].start_row + 1
        } else {
            1
        },
    }
}

fn error_line(nodes: &[SyntaxNode]) -> (line: u64)
    ensures
        line == error_line_of(nodes.deep_view()),
{
    let ghost tree = nodes.deep_view();
    match syntax::find_named(nodes, 0, nodes.len(), NodeTest::Error) {
        Some(j) => {
            assert(tree[j as int] == nodes@[j as int].deep_view());
            nodes[j].start_row as u64 + 1
        },
        None => if nodes.len() > 0 {
            assert(tree[0] == nodes@[0].deep_view());
            nodes[0].start_row as u64 + 1
        } else {
            1
        },
    }
}

/// What says that a source holds syntax errors.
pub open spec fn syntax_error_words(line: int) -> Seq<char> {
    "syntax errors detected near line "@ + numbers::decimal(line as nat)
        + "; extracted symbols may be incomplete"@
}

/// What a source gives, by what became of parsing it.
pub open spec fn extraction_of(
    path: Seq<char>,
    language: SupportedLanguage,
    outcome: ParseOutcomeView,
    bytes: Seq<u8>,
) -> FileExtractionView {
    match outcome {
        ParseOutcomeView::GrammarFailed { message } => FileExtractionView {
            parsed: false,
            warnings: seq![
                ParseWarningView {
                    code: "parse_language_failed"@,
                    path: Some(path),
                    message: "failed to initialize parser grammar: "@ + message,
                },
            ],
            symbols: Seq::empty(),
            imports: Seq::empty(),
        },
        ParseOutcomeView::NoTree => FileExtractionView {
            parsed: false,
            warnings: seq![
                ParseWarningView {
                    code: "parse_failed"@,
                    path: Some(path),
                    message: "tree-sitter did not produce a parse tree"@,
                },
            ],
            symbols: Seq::empty(),
            imports: Seq::empty(),
        },
        ParseOutcomeView::Tree { flawed, nodes } => {
            let found = findings_from(
                SourceView { path, language, bytes, tree: nodes },
                0,
                Seq::empty(),
            );
            FileExtractionView {
                parsed: true,
                warnings: if flawed {
                    seq![
                        ParseWarningView {
                            code: "syntax_error"@,
                            path: Some(path),
                            message: syntax_error_words(error_line_of(nodes)),
                        },
                    ]
                } else {
                    Seq::empty()
                },
                symbols: found.symbols,
                imports: found.imports,
            }
        },
    }
}

/// Makes a list of one warning.
pub(crate) fn only_warning(code: &'static str, path: &str, message: String) -> (out: Vec<ParseWarning>)
    ensures
        out.deep_view() == seq![
            ParseWarningView { code: code@, path: Some(path@), message: message@ },
        ],
{
    let mut out: Vec<ParseWarning> = Vec::new();
    out.push(ParseWarning { code, path: Some(path.to_string()), message });
    assert(out.deep_view() =~= seq![
        ParseWarningView { code: code@, path: Some(path@), message: message@ },
    ]);
    out
}

/// What a source gives, by what became of parsing it.
pub fn extract_from_outcome(
    path: &str,
    language: SupportedLanguage,
    outcome: &ParseOutcome,
    source: &str,
) -> (out: FileExtraction)
    ensures
        out.deep_view() == extraction_of(
            path@,
            language,
            outcome.deep_view(),
            vstd::utf8::encode_utf8(source@),
        ),
{
    match outcome {
        ParseOutcome::GrammarFailed { message } => {
            let mut words = "failed to initialize parser grammar: ".to_string();
            words.append(message.as_str());
            let out = FileExtraction {
                parsed: false,
                warnings: only_warning("parse_language_failed", path, words),
                symbols: Vec::new(),
                imports: Vec::new(),
            };
            assert(out.symbols.deep_view() =~= Seq::<ParseSymbolRecordView>::empty());
            assert(out.imports.deep_view() =~= Seq::<ParseImportRecordView>::empty());
            out
        },
        ParseOutcome::NoTree => {
            let words = "tree-sitter did not produce a parse tree".to_string();
            let out = FileExtraction {
                parsed: false,
                warnings: only_warning("parse_failed", path, words),
                symbols: Vec::new(),
                imports: Vec::new(),
            };
            assert(out.symbols.deep_view() =~= Seq::<ParseSymbolRecordView>::empty());
            assert(out.imports.deep_view() =~= Seq::<ParseImportRecordView>::empty());
            out
        },
        ParseOutcome::Tree { flawed, nodes } => {
            let warnings: Vec<ParseWarning> = if *flawed {
                let mut words = "syntax errors detected near line ".to_string();
                let line: u64 = error_line(nodes.as_slice());
                let out = &mut words;
                numbers::push_decimal(out, line);
                out.append("; extracted symbols may be incomplete");
                only_warning("syntax_error", path, words)
            } else {
                Vec::new()
            };
            assert(!*flawed ==> warnings.deep_view() =~= Seq::<ParseWarningView>::empty());
            let bytes = source.as_bytes();
            let (symbols, imports) = walk_tree(path, language, bytes, nodes.as_slice());
            FileExtraction { parsed: true, warnings, symbols, imports }
        },
    }
}

/// Parses a source and takes its symbols and imports out of it.
pub fn extract_source(path: &str, language: SupportedLanguage, source: &str) -> (out:
    FileExtraction)
    ensures
        out.deep_view() == extraction_of(
            path@,
            language,
            syntax::syntax_of(language, source@),
            vstd::utf8::encode_utf8(source@),
        ),
{
    let outcome = syntax::parse_tree(language, source);
    extract_from_outcome(path, language, &outcome, source)
}

} // verus!
