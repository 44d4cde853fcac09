//! What an extraction finds: every declaration and import that can be reached, with its name, its
//! head and its complexity.

use vstd::prelude::*;

use crate::languages;
use crate::languages::go;
use crate::parse::extract;
use crate::parse::extract::{ScopeView, SourceView};
use crate::parse::laws;
use crate::syntax;
use crate::syntax::{NodeTest, SupportedLanguage, SyntaxNodeView};
use crate::text;

verus! {

/// Whether the nodes inside a node of a kind are looked at.
pub open spec fn is_looked_into(language: SupportedLanguage, kind: Seq<char>) -> bool {
    match language {
        SupportedLanguage::Rust => kind != "use_declaration"@,
        SupportedLanguage::Go => kind == "source_file"@ || kind == "import_declaration"@ || kind
            == "import_spec_list"@ || kind == "type_declaration"@,
        _ => kind != "import_statement"@,
    }
}

/// Whether all nodes around node `j` are named ones that are looked into.
pub open spec fn is_reached(
    nodes: Seq<SyntaxNodeView>,
    language: SupportedLanguage,
    j: int,
) -> bool {
    forall|m: int|
        0 <= m < j && j < #[trigger] syntax::end_of(nodes, m) ==> nodes[m].named && is_looked_into(
            language,
            nodes[m].kind,
        )
}

pub proof fn looked_into_steps_go_inside(source: SourceView, i: int, live: Seq<ScopeView>)
    requires
        is_looked_into(source.language, source.tree[i].kind),
    ensures
        extract::step_at(source, i, live).inside,
{
    laws::words_of_rust();
    laws::words_of_go();
    laws::words_of_typescript();
}

pub proof fn step_is_found(source: SourceView, i: int, scopes: Seq<ScopeView>, j: int) -> (found: (
    int,
    int,
    Seq<ScopeView>,
))
    requires
        0 <= i <= j < source.tree.len(),
        source.tree[j].named,
        forall|m: int|
            i <= m < j && j < #[trigger] syntax::end_of(source.tree, m) ==> source.tree[m].named
                && is_looked_into(source.language, source.tree[m].kind),
    ensures
        ({
            let all = extract::findings_from(source, i, scopes);
            let step = extract::step_at(source, j, found.2);
            &&& step.symbol matches Some(symbol) ==> 0 <= found.0 < all.symbols.len()
                && all.symbols[found.0] == symbol
            &&& step.import matches Some(import) ==> 0 <= found.1 < all.imports.len()
                && all.imports[found.1] == import
        }),
    decreases j - i,
{
    let tree = source.tree;
    let end = syntax::end_of(tree, i);
    let live = extract::scopes_at(scopes, i);
    syntax::end_from_bounds(tree, tree[i].depth, i + 1);
    if i == j {
        (0, 0, live)
    } else if !tree[i].named {
        assert(end <= j);
        step_is_found(source, end, live, j)
    } else {
        let step = extract::step_at(source, i, live);
        let next = if step.inside {
            i + 1
        } else {
            end
        };
        if !step.inside && j < end {
            looked_into_steps_go_inside(source, i, live);
        }
        let found = step_is_found(source, next, extract::with_scope(live, step.scope), j);
        (
            if step.symbol is Some {
                found.0 + 1
            } else {
                found.0
            },
            if step.import is Some {
                found.1 + 1
            } else {
                found.1
            },
            found.2,
        )
    }
}

pub proof fn name_is_read(
    nodes: Seq<SyntaxNodeView>,
    bytes: Seq<u8>,
    j: int,
    c: int,
    name: Seq<char>,
)
    requires
        syntax::is_tree(nodes),
        languages::laws::is_field(nodes, j, c, "name"@),
        languages::laws::is_written(bytes, nodes[c], name),
        text::laws::is_word(name),
    ensures
        extract::name_of(nodes, bytes, j) == Some(name),
{
    assert forall|k: int| j < k < c && (#[trigger] nodes[k]).depth == nodes[j].depth
        + 1 implies !syntax::passes(nodes[k], NodeTest::NameField) by {}
    syntax::first_child_is_found(nodes, j, c, NodeTest::NameField);
    let words = seq![name];
    text::laws::joined_words_are_words(words);
    assert(text::joined(words, " "@) == name);
}

/// Whether a node of a kind declares something that is named by its `name` field.
pub open spec fn is_named_declaration(language: SupportedLanguage, kind: Seq<char>) -> bool {
    match language {
        SupportedLanguage::Rust => kind == "mod_item"@ || kind == "struct_item"@ || kind
            == "enum_item"@ || kind == "trait_item"@ || kind == "function_item"@ || kind
            == "function_signature_item"@,
        SupportedLanguage::Go => kind == "package_clause"@ || kind == "function_declaration"@ || kind
            == "method_declaration"@ || kind == "type_spec"@,
        _ => kind == "internal_module"@ || kind == "module"@ || kind == "module_declaration"@ || kind
            == "function_declaration"@ || kind == "method_definition"@ || kind
            == "method_signature"@ || kind == "class_declaration"@ || kind
            == "interface_declaration"@ || kind == "type_alias_declaration"@,
    }
}

/// A named declaration that is reached gives a symbol with its name, in its lines.
pub proof fn declarations_are_found(
    path: Seq<char>,
    language: SupportedLanguage,
    flawed: bool,
    nodes: Seq<SyntaxNodeView>,
    bytes: Seq<u8>,
    j: int,
    c: int,
    name: Seq<char>,
) -> (k: int)
    requires
        syntax::is_tree(nodes),
        nodes.len() <= usize::MAX,
        0 <= j < nodes.len(),
        nodes[j].named,
        is_named_declaration(language, nodes[j].kind),
        is_reached(nodes, language, j),
        languages::laws::is_field(nodes, j, c, "name"@),
        languages::laws::is_written(bytes, nodes[c], name),
        text::laws::is_word(name),
    ensures
        0 <= k < laws::extracted(path, language, flawed, nodes, bytes).symbols.len(),
        ({
            let symbol = laws::extracted(path, language, flawed, nodes, bytes).symbols[k];
            &&& symbol.name == name
            &&& symbol.path == path
            &&& symbol.start_line == nodes[j].start_row + 1
            &&& symbol.end_line == nodes[j].end_row + 1
            &&& laws::is_declared_by(language, symbol, nodes[j].kind)
        }),
{
    let source = SourceView { path, language, bytes, tree: nodes };
    name_is_read(nodes, bytes, j, c, name);
    let found = step_is_found(source, 0, Seq::empty(), j);
    laws::words_of_rust();
    laws::words_of_go();
    laws::words_of_typescript();
    laws::kinds_of_declarations(source, j, found.2);
    found.0
}

/// A `use` that is reached imports what stands between the word and the semicolon.
pub proof fn uses_import_their_path(
    path: Seq<char>,
    flawed: bool,
    nodes: Seq<SyntaxNodeView>,
    bytes: Seq<u8>,
    j: int,
    target: Seq<char>,
) -> (k: int)
    requires
        0 <= j < nodes.len(),
        nodes[j].named,
        nodes[j].kind == "use_declaration"@,
        is_reached(nodes, SupportedLanguage::Rust, j),
        languages::laws::is_written(bytes, nodes[j], "use "@ + target + ";"@),
        text::laws::is_word(target),
        target.last() != ';',
    ensures
        0 <= k < laws::extracted(path, SupportedLanguage::Rust, flawed, nodes, bytes).imports.len(),
        ({
            let import = laws::extracted(
                path,
                SupportedLanguage::Rust,
                flawed,
                nodes,
                bytes,
            ).imports[k];
            &&& import.target == target
            &&& import.kind == "use"@
            &&& import.start_line == nodes[j].start_row + 1
            &&& import.end_line == nodes[j].end_row + 1
        }),
{
    let source = SourceView { path, language: SupportedLanguage::Rust, bytes, tree: nodes };
    use_target_is_read(target);
    let found = step_is_found(source, 0, Seq::empty(), j);
    found.1
}

proof fn use_target_is_read(target: Seq<char>)
    requires
        text::laws::is_word(target),
        target.last() != ';',
    ensures
        extract::use_target("use "@ + target + ";"@) == Some(target),
{
    reveal_strlit("use ");
    reveal_strlit("use");
    reveal_strlit(";");
    let none = Seq::<char>::empty();
    let whole = "use "@ + target + ";"@;
    let ended = target + ";"@;
    assert(!text::is_white('u') && !text::is_white(';'));
    assert(whole[0] == 'u' && whole.last() == ';');
    text::trimming_leaves_what_is_inside(none, whole, none);
    assert(none + whole + none =~= whole);
    assert(whole.take(3) =~= "use"@);
    let bare = whole.skip(3);
    assert(bare =~= seq![' '] + ended + none);
    assert(text::is_white(' '));
    assert(ended[0] == target[0] && ended.last() == ';');
    text::trimming_leaves_what_is_inside(seq![' '], ended, none);
    reveal_with_fuel(text::strip_end, 2);
    assert(ended.drop_last() =~= target);
    assert(target[target.len() - 1] == target.last());
    text::trimming_leaves_what_is_inside(none, target, none);
    assert(none + target + none =~= target);
    let words = seq![target];
    text::laws::joined_words_are_words(words);
    assert(text::joined(words, " "@) == target);
}

/// Whether a node is a string literal.
pub open spec fn is_string(node: SyntaxNodeView) -> bool {
    node.kind == "interpreted_string_literal"@ || node.kind == "raw_string_literal"@ || node.kind
        == "string"@
}

/// An import of Go or TypeScript that is reached imports what its first string holds between its
/// quotes.
pub proof fn imports_take_their_string(
    path: Seq<char>,
    language: SupportedLanguage,
    flawed: bool,
    nodes: Seq<SyntaxNodeView>,
    bytes: Seq<u8>,
    j: int,
    c: int,
    target: Seq<char>,
    quote: char,
) -> (k: int)
    requires
        0 <= j < c < syntax::end_of(nodes, j),
        j < nodes.len(),
        language == SupportedLanguage::Go && nodes[j].kind == "import_spec"@ || (language
            == SupportedLanguage::TypeScript || language == SupportedLanguage::Tsx) && nodes[j].kind
            == "import_statement"@,
        is_reached(nodes, language, j),
        forall|m: int| j <= m < c ==> (#[trigger] nodes[m]).named && !is_string(nodes[m]),
        nodes[c].named && is_string(nodes[c]),
        quote == '"' || quote == '`' || quote == '\'',
        languages::laws::is_written(bytes, nodes[c], seq![quote] + target + seq![quote]),
        target.len() > 0,
    ensures
        0 <= k < laws::extracted(path, language, flawed, nodes, bytes).imports.len(),
        ({
            let import = laws::extracted(path, language, flawed, nodes, bytes).imports[k];
            &&& import.target == target
            &&& import.kind == "import"@
            &&& import.start_line == nodes[j].start_row + 1
            &&& import.end_line == nodes[j].end_row + 1
        }),
{
    let source = SourceView { path, language, bytes, tree: nodes };
    laws::words_of_go();
    laws::words_of_typescript();
    syntax::end_from_bounds(nodes, nodes[j].depth, j + 1);
    first_string_is_found(nodes, j, syntax::end_of(nodes, j), c);
    let none = Seq::<char>::empty();
    let literal = seq![quote] + target + seq![quote];
    assert(!text::is_white(quote));
    assert(literal[0] == quote && literal.last() == quote);
    text::trimming_leaves_what_is_inside(none, literal, none);
    assert(none + literal + none =~= literal);
    assert(literal.subrange(1, literal.len() - 1) =~= target);
    let found = step_is_found(source, 0, Seq::empty(), j);
    found.1
}

proof fn first_string_is_found(nodes: Seq<SyntaxNodeView>, j: int, end: int, c: int)
    requires
        0 <= j <= c < end <= nodes.len(),
        forall|m: int| j <= m < c ==> (#[trigger] nodes[m]).named && !is_string(nodes[m]),
        nodes[c].named && is_string(nodes[c]),
    ensures
        syntax::named_from(nodes, j, end, NodeTest::StringLiteral) == Some(c),
    decreases c - j,
{
    if j < c {
        first_string_is_found(nodes, j + 1, end, c);
    }
}

/// A module without a body is also imported, by its name; one with a body is not.
pub proof fn modules_in_files_are_imported(
    path: Seq<char>,
    flawed: bool,
    nodes: Seq<SyntaxNodeView>,
    bytes: Seq<u8>,
    j: int,
    c: int,
    name: Seq<char>,
) -> (k: int)
    requires
        syntax::is_tree(nodes),
        0 <= j < nodes.len(),
        nodes[j].named,
        nodes[j].kind == "mod_item"@,
        is_reached(nodes, SupportedLanguage::Rust, j),
        languages::laws::is_field(nodes, j, c, "name"@),
        languages::laws::is_written(bytes, nodes[c], name),
        text::laws::is_word(name),
        forall|m: int|
            j < m < syntax::end_of(nodes, j) ==> (#[trigger] nodes[m]).field != Some("body"@),
    ensures
        0 <= k < laws::extracted(path, SupportedLanguage::Rust, flawed, nodes, bytes).imports.len(),
        ({
            let import = laws::extracted(
                path,
                SupportedLanguage::Rust,
                flawed,
                nodes,
                bytes,
            ).imports[k];
            import.target == name && import.kind == "mod"@
        }),
{
    let source = SourceView { path, language: SupportedLanguage::Rust, bytes, tree: nodes };
    laws::words_of_rust();
    name_is_read(nodes, bytes, j, c, name);
    languages::laws::no_child_is_found(nodes, j, NodeTest::BodyField);
    let found = step_is_found(source, 0, Seq::empty(), j);
    found.1
}

/// Whether a node of a kind branches or repeats.
pub open spec fn is_branch(language: SupportedLanguage, kind: Seq<char>) -> bool {
    match language {
        SupportedLanguage::Rust => seq![
            "if_expression"@,
            "if_let_expression"@,
            "match_expression"@,
            "for_expression"@,
            "loop_expression"@,
            "while_expression"@,
            "while_let_expression"@,
        ].contains(kind),
        SupportedLanguage::Go => seq![
            "if_statement"@,
            "for_statement"@,
            "switch_statement"@,
            "type_switch_statement"@,
            "select_statement"@,
            "case_clause"@,
            "communication_case"@,
        ].contains(kind),
        _ => seq![
            "if_statement"@,
            "for_statement"@,
            "for_in_statement"@,
            "for_of_statement"@,
            "while_statement"@,
            "do_statement"@,
            "switch_statement"@,
            "switch_case"@,
            "case_clause"@,
            "catch_clause"@,
            "conditional_expression"@,
            "ternary_expression"@,
        ].contains(kind),
    }
}

/// Whether a node of a kind is another function, which is measured by itself.
pub open spec fn is_function(language: SupportedLanguage, kind: Seq<char>) -> bool {
    match language {
        SupportedLanguage::Rust => kind == "function_item"@ || kind == "closure_expression"@,
        SupportedLanguage::Go => kind == "function_declaration"@ || kind == "method_declaration"@,
        _ => kind == "function_declaration"@ || kind == "function_expression"@ || kind
            == "arrow_function"@ || kind == "method_definition"@,
    }
}

/// Whether a node is a named one and no other function.
pub open spec fn is_own(language: SupportedLanguage, node: SyntaxNodeView) -> bool {
    node.named && !is_function(language, node.kind)
}

/// The nodes from `i` to `end` that branch or repeat, without those inside other functions.
pub open spec fn branches_between(
    nodes: Seq<SyntaxNodeView>,
    language: SupportedLanguage,
    i: int,
    end: int,
) -> Set<int> {
    Set::new(
        |m: int|
            i <= m < end && is_own(language, nodes[m]) && is_branch(language, nodes[m].kind) && forall|
                a: int,
            |
                i <= a < m && m < #[trigger] syntax::end_of(nodes, a) ==> is_own(language, nodes[a]),
    )
}

proof fn branch_kinds(language: SupportedLanguage, kind: Seq<char>)
    ensures
        extract::is_control_flow(language, kind) == is_branch(language, kind),
        extract::is_boundary(language, kind) == is_function(language, kind),
{
    match language {
        SupportedLanguage::Rust => {
            let all = seq![
                "if_expression"@,
                "if_let_expression"@,
                "match_expression"@,
                "for_expression"@,
                "loop_expression"@,
                "while_expression"@,
                "while_let_expression"@,
            ];
            assert(all[0] == "if_expression"@ && all[1] == "if_let_expression"@ && all[2]
                == "match_expression"@ && all[3] == "for_expression"@ && all[4]
                == "loop_expression"@ && all[5] == "while_expression"@ && all[6]
                == "while_let_expression"@);
        },
        SupportedLanguage::Go => {
            let all = seq![
                "if_statement"@,
                "for_statement"@,
                "switch_statement"@,
                "type_switch_statement"@,
                "select_statement"@,
                "case_clause"@,
                "communication_case"@,
            ];
            assert(all[0] == "if_statement"@ && all[1] == "for_statement"@ && all[2]
                == "switch_statement"@ && all[3] == "type_switch_statement"@ && all[4]
                == "select_statement"@ && all[5] == "case_clause"@ && all[6]
                == "communication_case"@);
        },
        _ => {
            let all = seq![
                "if_statement"@,
                "for_statement"@,
                "for_in_statement"@,
                "for_of_statement"@,
                "while_statement"@,
                "do_statement"@,
                "switch_statement"@,
                "switch_case"@,
                "case_clause"@,
                "catch_clause"@,
                "conditional_expression"@,
                "ternary_expression"@,
            ];
            assert(all[0] == "if_statement"@ && all[1] == "for_statement"@ && all[2]
                == "for_in_statement"@ && all[3] == "for_of_statement"@ && all[4]
                == "while_statement"@ && all[5] == "do_statement"@ && all[6] == "switch_statement"@
                && all[7] == "switch_case"@ && all[8] == "case_clause"@ && all[9]
                == "catch_clause"@ && all[10] == "conditional_expression"@ && all[11]
                == "ternary_expression"@);
        },
    }
}

proof fn branches_are_counted(
    nodes: Seq<SyntaxNodeView>,
    language: SupportedLanguage,
    j: int,
    i: int,
    end: int,
    open: Seq<int>,
)
    requires
        0 <= j < i <= end,
        end == syntax::end_of(nodes, j),
        j < nodes.len(),
    ensures
        branches_between(nodes, language, i, end).finite(),
        branches_between(nodes, language, i, end).len() == extract::flow_from(
            nodes,
            language,
            i,
            end,
            open,
        ).branches,
    decreases end - i,
{
    let here = branches_between(nodes, language, i, end);
    syntax::end_from_bounds(nodes, nodes[j].depth, j + 1);
    if i >= end {
        assert(here =~= Set::empty());
    } else {
        go::inner_nodes_end_before(nodes, j, i);
        let after = syntax::end_of(nodes, i);
        let live = extract::still_open(open, i);
        branch_kinds(language, nodes[i].kind);
        if !is_own(language, nodes[i]) {
            branches_are_counted(nodes, language, j, after, end, live);
            let rest = branches_between(nodes, language, after, end);
            assert forall|m: int| here.contains(m) == rest.contains(m) by {
                if here.contains(m) && m < after {
                    assert(m == i || (i < m && m < syntax::end_of(nodes, i)));
                }
                if rest.contains(m) {
                    assert forall|a: int|
                        i <= a < m && m < #[trigger] syntax::end_of(nodes, a) implies is_own(
                        language,
                        nodes[a],
                    ) by {
                        if a < after {
                            if a > i {
                                go::inner_nodes_end_before(nodes, i, a);
                            }
                        }
                    }
                }
            }
            assert(here =~= rest);
        } else {
            let rest = branches_between(nodes, language, i + 1, end);
            assert forall|m: int| here.contains(m) == (rest.contains(m) || (m == i && is_branch(
                language,
                nodes[i].kind,
            ))) by {
                if rest.contains(m) {
                    assert forall|a: int|
                        i <= a < m && m < #[trigger] syntax::end_of(nodes, a) implies is_own(
                        language,
                        nodes[a],
                    ) by {}
                }
            }
            if is_branch(language, nodes[i].kind) {
                branches_are_counted(nodes, language, j, i + 1, end, live.push(after));
                assert(here =~= rest.insert(i));
                assert(!rest.contains(i));
            } else {
                branches_are_counted(nodes, language, j, i + 1, end, live);
                assert(here =~= rest);
            }
        }
    }
}

proof fn nesting_is_counted(
    nodes: Seq<SyntaxNodeView>,
    language: SupportedLanguage,
    i: int,
    end: int,
    open: Seq<int>,
)
    ensures
        ({
            let flow = extract::flow_from(nodes, language, i, end, open);
            &&& flow.nesting <= open.len() + flow.branches
            &&& flow.branches == 0 <==> flow.nesting == 0
        }),
    decreases nodes.len() - i,
{
    if !(i < 0 || i >= end || i >= nodes.len() || !(i < syntax::end_of(nodes, i) <= nodes.len())) {
        let live = extract::still_open(open, i);
        still_open_is_shorter(open, i);
        nesting_is_counted(nodes, language, syntax::end_of(nodes, i), end, live);
        nesting_is_counted(nodes, language, i + 1, end, live);
        nesting_is_counted(nodes, language, i + 1, end, live.push(syntax::end_of(nodes, i)));
    }
}

proof fn still_open_is_shorter(open: Seq<int>, i: int)
    ensures
        extract::still_open(open, i).len() <= open.len(),
    decreases open.len(),
{
    if open.len() > 0 && open.last() <= i {
        still_open_is_shorter(open.drop_last(), i);
    }
}

/// The cyclomatic complexity of a function is one more than the number of nodes in it that branch
/// or repeat, without those inside other functions; control flow nests no deeper than there are
/// such nodes, and nests at all where there is one.
pub proof fn complexity_counts_branches(
    path: Seq<char>,
    language: SupportedLanguage,
    flawed: bool,
    nodes: Seq<SyntaxNodeView>,
    bytes: Seq<u8>,
    k: int,
) -> (j: int)
    requires
        nodes.len() <= usize::MAX,
        0 <= k < laws::extracted(path, language, flawed, nodes, bytes).symbols.len(),
    ensures
        0 <= j < nodes.len(),
        ({
            let symbol = laws::extracted(path, language, flawed, nodes, bytes).symbols[k];
            let branches = branches_between(nodes, language, j + 1, syntax::end_of(nodes, j));
            &&& symbol.start_line == nodes[j].start_row + 1
            &&& symbol.end_line == nodes[j].end_row + 1
            &&& symbol.cyclomatic_complexity matches Some(n) ==> n == 1 + branches.len()
            &&& symbol.max_control_flow_nesting matches Some(n) ==> n <= branches.len() && (n == 0)
                == (branches.len() == 0)
        }),
{
    let source = SourceView { path, language, bytes, tree: nodes };
    let (j, live) = laws::symbol_has_its_node(source, 0, Seq::empty(), k);
    let end = syntax::end_of(nodes, j);
    syntax::end_from_bounds(nodes, nodes[j].depth, j + 1);
    branches_are_counted(nodes, language, j, j + 1, end, Seq::empty());
    nesting_is_counted(nodes, language, j + 1, end, Seq::empty());
    laws::branches_are_few(nodes, language, j + 1, end, Seq::empty());
    j
}

/// The signature of a declaration is what stands before its body, where that is words with single
/// spaces between them which do not end with a brace or a semicolon, in no more than 180 bytes.
pub proof fn signatures_are_heads(
    path: Seq<char>,
    language: SupportedLanguage,
    flawed: bool,
    nodes: Seq<SyntaxNodeView>,
    bytes: Seq<u8>,
    j: int,
    c: int,
    name: Seq<char>,
    b: int,
    words: Seq<Seq<char>>,
) -> (k: int)
    requires
        syntax::is_tree(nodes),
        nodes.len() <= usize::MAX,
        0 <= j < nodes.len(),
        nodes[j].named,
        is_named_declaration(language, nodes[j].kind),
        is_reached(nodes, language, j),
        languages::laws::is_field(nodes, j, c, "name"@),
        languages::laws::is_written(bytes, nodes[c], name),
        text::laws::is_word(name),
        languages::laws::is_field(nodes, j, b, "body"@),
        nodes[j].start_byte <= nodes[b].start_byte <= bytes.len(),
        ({
            let head = bytes.subrange(nodes[j].start_byte as int, nodes[b].start_byte as int);
            vstd::utf8::valid_utf8(head) && vstd::utf8::decode_utf8(head) == text::joined(
                words,
                " "@,
            ).push(' ')
        }),
        words.len() > 0,
        forall|i: int| 0 <= i < words.len() ==> text::laws::is_word(#[trigger] words[i]),
        words.last().last() != '{' && words.last().last() != ';',
        vstd::utf8::encode_utf8(text::joined(words, " "@)).len() <= 180,
    ensures
        0 <= k < laws::extracted(path, language, flawed, nodes, bytes).symbols.len(),
        ({
            let symbol = laws::extracted(path, language, flawed, nodes, bytes).symbols[k];
            symbol.name == name && symbol.signature == Some(text::joined(words, " "@))
        }),
{
    let source = SourceView { path, language, bytes, tree: nodes };
    let none = Seq::<char>::empty();
    let signature = text::joined(words, " "@);
    assert forall|m: int| j < m < b && (#[trigger] nodes[m]).depth == nodes[j].depth
        + 1 implies !syntax::passes(nodes[m], NodeTest::BodyField) by {}
    syntax::first_child_is_found(nodes, j, b, NodeTest::BodyField);
    text::laws::joined_words_are_words(words);
    ends_of_joined(words);
    text::trimming_leaves_what_is_inside(none, signature, none);
    assert(none + signature + none =~= signature);
    name_is_read(nodes, bytes, j, c, name);
    let found = step_is_found(source, 0, Seq::empty(), j);
    laws::words_of_rust();
    laws::words_of_go();
    laws::words_of_typescript();
    found.0
}

proof fn ends_of_joined(words: Seq<Seq<char>>)
    requires
        words.len() > 0,
        forall|i: int| 0 <= i < words.len() ==> text::laws::is_word(#[trigger] words[i]),
    ensures
        text::joined(words, " "@).len() > 0,
        !text::is_white(text::joined(words, " "@)[0]),
        text::joined(words, " "@).last() == words.last().last(),
        !text::is_white(words.last().last()),
    decreases words.len(),
{
    assert(text::laws::is_word(words[words.len() - 1]));
    assert(!text::is_white(words.last()[words.last().len() - 1]));
    if words.len() > 1 {
        let front = words.drop_last();
        assert forall|i: int| 0 <= i < front.len() implies text::laws::is_word(
            #[trigger] front[i],
        ) by {
            assert(front[i] == words[i]);
        }
        ends_of_joined(front);
    } else {
        assert(!text::is_white(words[0][0]));
    }
}

} // verus!
