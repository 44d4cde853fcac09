//! What holds of every extraction.

use vstd::prelude::*;

use crate::parse::extract;
use crate::parse::extract::{ScopeView, SourceView};
use crate::parse::{FileExtractionView, ParseSymbolRecordView};
use crate::syntax;
use crate::syntax::{ParseOutcomeView, SupportedLanguage, SyntaxNodeView};

verus! {

/// What is extracted from a source with a given tree.
pub open spec fn extracted(
    path: Seq<char>,
    language: SupportedLanguage,
    flawed: bool,
    nodes: Seq<SyntaxNodeView>,
    bytes: Seq<u8>,
) -> FileExtractionView {
    extract::extraction_of(path, language, ParseOutcomeView::Tree { flawed, nodes }, bytes)
}

pub proof fn symbol_has_its_node(source: SourceView, i: int, scopes: Seq<ScopeView>, k: int) -> (found: (
    int,
    Seq<ScopeView>,
))
    requires
        0 <= i,
        0 <= k < extract::findings_from(source, i, scopes).symbols.len(),
    ensures
        i <= found.0 < source.tree.len(),
        source.tree[found.0].named,
        extract::step_at(source, found.0, found.1).symbol == Some(
            extract::findings_from(source, i, scopes).symbols[k],
        ),
    decreases source.tree.len() - i,
{
    let tree = source.tree;
    let end = syntax::end_of(tree, i);
    let live = extract::scopes_at(scopes, i);
    if !tree[i].named {
        symbol_has_its_node(source, end, live, k)
    } else {
        let step = extract::step_at(source, i, live);
        let next = if step.inside {
            i + 1
        } else {
            end
        };
        let inner = extract::with_scope(live, step.scope);
        if step.symbol is Some {
            if k == 0 {
                (i, live)
            } else {
                symbol_has_its_node(source, next, inner, k - 1)
            }
        } else {
            symbol_has_its_node(source, next, inner, k)
        }
    }
}

proof fn import_has_its_node(source: SourceView, i: int, scopes: Seq<ScopeView>, k: int) -> (found: (
    int,
    Seq<ScopeView>,
))
    requires
        0 <= i,
        0 <= k < extract::findings_from(source, i, scopes).imports.len(),
    ensures
        i <= found.0 < source.tree.len(),
        source.tree[found.0].named,
        extract::step_at(source, found.0, found.1).import == Some(
            extract::findings_from(source, i, scopes).imports[k],
        ),
    decreases source.tree.len() - i,
{
    let tree = source.tree;
    let end = syntax::end_of(tree, i);
    let live = extract::scopes_at(scopes, i);
    if !tree[i].named {
        import_has_its_node(source, end, live, k)
    } else {
        let step = extract::step_at(source, i, live);
        let next = if step.inside {
            i + 1
        } else {
            end
        };
        let inner = extract::with_scope(live, step.scope);
        if step.import is Some {
            if k == 0 {
                (i, live)
            } else {
                import_has_its_node(source, next, inner, k - 1)
            }
        } else {
            import_has_its_node(source, next, inner, k)
        }
    }
}

/// A symbol stands in the lines in which the node that declares it starts and ends, so a
/// declaration of so many lines spans so many; lines are counted from one.
pub proof fn symbols_span_the_lines_of_their_node(
    path: Seq<char>,
    language: SupportedLanguage,
    flawed: bool,
    nodes: Seq<SyntaxNodeView>,
    bytes: Seq<u8>,
    k: int,
) -> (j: int)
    requires
        nodes.len() <= usize::MAX,
        0 <= k < extracted(path, language, flawed, nodes, bytes).symbols.len(),
    ensures
        0 <= j < nodes.len(),
        nodes[j].named,
        ({
            let symbol = extracted(path, language, flawed, nodes, bytes).symbols[k];
            &&& symbol.path == path
            &&& symbol.start_line == nodes[j].start_row + 1
            &&& symbol.end_line == nodes[j].end_row + 1
            &&& symbol.end_line - symbol.start_line == nodes[j].end_row - nodes[j].start_row
            &&& is_declared_by(language, symbol, nodes[j].kind)
        }),
{
    let source = SourceView { path, language, bytes, tree: nodes };
    let (j, live) = symbol_has_its_node(source, 0, Seq::empty(), k);
    kinds_of_declarations(source, j, live);
    j
}

/// Whether a symbol is what a node of a kind declares in a language: functions and methods that
/// have a body are measured, and nothing else is.
pub open spec fn is_declared_by(
    language: SupportedLanguage,
    symbol: ParseSymbolRecordView,
    kind: Seq<char>,
) -> bool {
    &&& (symbol.cyclomatic_complexity matches Some(n) ==> n >= 1)
    &&& (symbol.cyclomatic_complexity is Some) == (symbol.max_control_flow_nesting is Some)
    &&& match language {
        SupportedLanguage::Rust => {
            &&& (symbol.kind == "struct"@) == (kind == "struct_item"@)
            &&& (symbol.kind == "enum"@) == (kind == "enum_item"@)
            &&& (symbol.kind == "trait"@) == (kind == "trait_item"@)
            &&& (symbol.kind == "impl"@) == (kind == "impl_item"@)
            &&& (symbol.kind == "module"@) == (kind == "mod_item"@)
            &&& (symbol.kind == "function"@ || symbol.kind == "method"@) == (kind
                == "function_item"@ || kind == "function_signature_item"@)
            &&& (symbol.cyclomatic_complexity is Some) == (kind == "function_item"@)
        },
        SupportedLanguage::Go => {
            &&& (symbol.kind == "package"@) == (kind == "package_clause"@)
            &&& (symbol.kind == "function"@) == (kind == "function_declaration"@)
            &&& (symbol.kind == "method"@) == (kind == "method_declaration"@)
            &&& (symbol.kind == "struct"@ || symbol.kind == "interface"@ || symbol.kind == "type"@)
                == (kind == "type_spec"@)
            &&& (symbol.cyclomatic_complexity is Some) == (kind == "function_declaration"@ || kind
                == "method_declaration"@)
        },
        _ => {
            &&& (symbol.kind == "namespace"@) == (kind == "internal_module"@ || kind == "module"@
                || kind == "module_declaration"@)
            &&& (symbol.kind == "function"@) == (kind == "function_declaration"@)
            &&& (symbol.kind == "method"@) == (kind == "method_definition"@ || kind
                == "method_signature"@)
            &&& (symbol.kind == "class"@) == (kind == "class_declaration"@)
            &&& (symbol.kind == "interface"@) == (kind == "interface_declaration"@)
            &&& (symbol.kind == "type_alias"@) == (kind == "type_alias_declaration"@)
            &&& (symbol.cyclomatic_complexity is Some) == (kind == "function_declaration"@ || kind
                == "method_definition"@ || kind == "method_signature"@)
        },
    }
}

pub proof fn words_of_rust()
    ensures
        "use_declaration"@ != "mod_item"@,
        "use_declaration"@ != "struct_item"@,
        "use_declaration"@ != "enum_item"@,
        "use_declaration"@ != "trait_item"@,
        "use_declaration"@ != "impl_item"@,
        "use_declaration"@ != "function_item"@,
        "use_declaration"@ != "function_signature_item"@,
        "mod_item"@ != "struct_item"@,
        "mod_item"@ != "enum_item"@,
        "mod_item"@ != "trait_item"@,
        "mod_item"@ != "impl_item"@,
        "mod_item"@ != "function_item"@,
        "mod_item"@ != "function_signature_item"@,
        "struct_item"@ != "enum_item"@,
        "struct_item"@ != "trait_item"@,
        "struct_item"@ != "impl_item"@,
        "struct_item"@ != "function_item"@,
        "struct_item"@ != "function_signature_item"@,
        "enum_item"@ != "trait_item"@,
        "enum_item"@ != "impl_item"@,
        "enum_item"@ != "function_item"@,
        "enum_item"@ != "function_signature_item"@,
        "trait_item"@ != "impl_item"@,
        "trait_item"@ != "function_item"@,
        "trait_item"@ != "function_signature_item"@,
        "impl_item"@ != "function_item"@,
        "impl_item"@ != "function_signature_item"@,
        "function_item"@ != "function_signature_item"@,
        "module"@ != "struct"@,
        "module"@ != "enum"@,
        "module"@ != "trait"@,
        "module"@ != "impl"@,
        "module"@ != "function"@,
        "module"@ != "method"@,
        "struct"@ != "enum"@,
        "struct"@ != "trait"@,
        "struct"@ != "impl"@,
        "struct"@ != "function"@,
        "struct"@ != "method"@,
        "enum"@ != "trait"@,
        "enum"@ != "impl"@,
        "enum"@ != "function"@,
        "enum"@ != "method"@,
        "trait"@ != "impl"@,
        "trait"@ != "function"@,
        "trait"@ != "method"@,
        "impl"@ != "function"@,
        "impl"@ != "method"@,
        "function"@ != "method"@,
{
    reveal_strlit("use_declaration");
    assert("use_declaration"@.len() == 15);
    reveal_strlit("mod_item");
    assert("mod_item"@.len() == 8);
    reveal_strlit("struct_item");
    assert("struct_item"@.len() == 11);
    reveal_strlit("enum_item");
    assert("enum_item"@.len() == 9);
    reveal_strlit("trait_item");
    assert("trait_item"@.len() == 10);
    reveal_strlit("impl_item");
    assert("impl_item"@.len() == 9);
    reveal_strlit("function_item");
    assert("function_item"@.len() == 13);
    reveal_strlit("function_signature_item");
    assert("function_signature_item"@.len() == 23);
    reveal_strlit("module");
    assert("module"@.len() == 6);
    reveal_strlit("struct");
    assert("struct"@.len() == 6);
    reveal_strlit("enum");
    assert("enum"@.len() == 4);
    reveal_strlit("trait");
    assert("trait"@.len() == 5);
    reveal_strlit("impl");
    assert("impl"@.len() == 4);
    reveal_strlit("function");
    assert("function"@.len() == 8);
    reveal_strlit("method");
    assert("method"@.len() == 6);
    assert("enum_item"@[0] != "impl_item"@[0]);
    assert("module"@[0] != "struct"@[0]);
    assert("module"@[1] != "method"@[1]);
    assert("struct"@[0] != "method"@[0]);
    assert("enum"@[0] != "impl"@[0]);
}

pub proof fn words_of_go()
    ensures
        "source_file"@ != "import_declaration"@,
        "source_file"@ != "import_spec_list"@,
        "source_file"@ != "type_declaration"@,
        "source_file"@ != "package_clause"@,
        "source_file"@ != "import_spec"@,
        "source_file"@ != "function_declaration"@,
        "source_file"@ != "method_declaration"@,
        "source_file"@ != "type_spec"@,
        "import_declaration"@ != "import_spec_list"@,
        "import_declaration"@ != "type_declaration"@,
        "import_declaration"@ != "package_clause"@,
        "import_declaration"@ != "import_spec"@,
        "import_declaration"@ != "function_declaration"@,
        "import_declaration"@ != "method_declaration"@,
        "import_declaration"@ != "type_spec"@,
        "import_spec_list"@ != "type_declaration"@,
        "import_spec_list"@ != "package_clause"@,
        "import_spec_list"@ != "import_spec"@,
        "import_spec_list"@ != "function_declaration"@,
        "import_spec_list"@ != "method_declaration"@,
        "import_spec_list"@ != "type_spec"@,
        "type_declaration"@ != "package_clause"@,
        "type_declaration"@ != "import_spec"@,
        "type_declaration"@ != "function_declaration"@,
        "type_declaration"@ != "method_declaration"@,
        "type_declaration"@ != "type_spec"@,
        "package_clause"@ != "import_spec"@,
        "package_clause"@ != "function_declaration"@,
        "package_clause"@ != "method_declaration"@,
        "package_clause"@ != "type_spec"@,
        "import_spec"@ != "function_declaration"@,
        "import_spec"@ != "method_declaration"@,
        "import_spec"@ != "type_spec"@,
        "function_declaration"@ != "method_declaration"@,
        "function_declaration"@ != "type_spec"@,
        "method_declaration"@ != "type_spec"@,
        "package"@ != "function"@,
        "package"@ != "method"@,
        "package"@ != "struct"@,
        "package"@ != "interface"@,
        "package"@ != "type"@,
        "function"@ != "method"@,
        "function"@ != "struct"@,
        "function"@ != "interface"@,
        "function"@ != "type"@,
        "method"@ != "struct"@,
        "method"@ != "interface"@,
        "method"@ != "type"@,
        "struct"@ != "interface"@,
        "struct"@ != "type"@,
        "interface"@ != "type"@,
{
    reveal_strlit("source_file");
    assert("source_file"@.len() == 11);
    reveal_strlit("import_declaration");
    assert("import_declaration"@.len() == 18);
    reveal_strlit("import_spec_list");
    assert("import_spec_list"@.len() == 16);
    reveal_strlit("type_declaration");
    assert("type_declaration"@.len() == 16);
    reveal_strlit("package_clause");
    assert("package_clause"@.len() == 14);
    reveal_strlit("import_spec");
    assert("import_spec"@.len() == 11);
    reveal_strlit("function_declaration");
    assert("function_declaration"@.len() == 20);
    reveal_strlit("method_declaration");
    assert("method_declaration"@.len() == 18);
    reveal_strlit("type_spec");
    assert("type_spec"@.len() == 9);
    reveal_strlit("package");
    assert("package"@.len() == 7);
    reveal_strlit("function");
    assert("function"@.len() == 8);
    reveal_strlit("method");
    assert("method"@.len() == 6);
    reveal_strlit("struct");
    assert("struct"@.len() == 6);
    reveal_strlit("interface");
    assert("interface"@.len() == 9);
    reveal_strlit("type");
    assert("type"@.len() == 4);
    assert("source_file"@[0] != "import_spec"@[0]);
    assert("import_declaration"@[0] != "method_declaration"@[0]);
    assert("import_spec_list"@[0] != "type_declaration"@[0]);
    assert("method"@[0] != "struct"@[0]);
}

pub proof fn words_of_typescript()
    ensures
        "import_statement"@ != "internal_module"@,
        "import_statement"@ != "module"@,
        "import_statement"@ != "module_declaration"@,
        "import_statement"@ != "function_declaration"@,
        "import_statement"@ != "method_definition"@,
        "import_statement"@ != "method_signature"@,
        "import_statement"@ != "class_declaration"@,
        "import_statement"@ != "interface_declaration"@,
        "import_statement"@ != "type_alias_declaration"@,
        "internal_module"@ != "module"@,
        "internal_module"@ != "module_declaration"@,
        "internal_module"@ != "function_declaration"@,
        "internal_module"@ != "method_definition"@,
        "internal_module"@ != "method_signature"@,
        "internal_module"@ != "class_declaration"@,
        "internal_module"@ != "interface_declaration"@,
        "internal_module"@ != "type_alias_declaration"@,
        "module"@ != "module_declaration"@,
        "module"@ != "function_declaration"@,
        "module"@ != "method_definition"@,
        "module"@ != "method_signature"@,
        "module"@ != "class_declaration"@,
        "module"@ != "interface_declaration"@,
        "module"@ != "type_alias_declaration"@,
        "module_declaration"@ != "function_declaration"@,
        "module_declaration"@ != "method_definition"@,
        "module_declaration"@ != "method_signature"@,
        "module_declaration"@ != "class_declaration"@,
        "module_declaration"@ != "interface_declaration"@,
        "module_declaration"@ != "type_alias_declaration"@,
        "function_declaration"@ != "method_definition"@,
        "function_declaration"@ != "method_signature"@,
        "function_declaration"@ != "class_declaration"@,
        "function_declaration"@ != "interface_declaration"@,
        "function_declaration"@ != "type_alias_declaration"@,
        "method_definition"@ != "method_signature"@,
        "method_definition"@ != "class_declaration"@,
        "method_definition"@ != "interface_declaration"@,
        "method_definition"@ != "type_alias_declaration"@,
        "method_signature"@ != "class_declaration"@,
        "method_signature"@ != "interface_declaration"@,
        "method_signature"@ != "type_alias_declaration"@,
        "class_declaration"@ != "interface_declaration"@,
        "class_declaration"@ != "type_alias_declaration"@,
        "interface_declaration"@ != "type_alias_declaration"@,
        "namespace"@ != "function"@,
        "namespace"@ != "method"@,
        "namespace"@ != "class"@,
        "namespace"@ != "interface"@,
        "namespace"@ != "type_alias"@,
        "function"@ != "method"@,
        "function"@ != "class"@,
        "function"@ != "interface"@,
        "function"@ != "type_alias"@,
        "method"@ != "class"@,
        "method"@ != "interface"@,
        "method"@ != "type_alias"@,
        "class"@ != "interface"@,
        "class"@ != "type_alias"@,
        "interface"@ != "type_alias"@,
{
    reveal_strlit("import_statement");
    assert("import_statement"@.len() == 16);
    reveal_strlit("internal_module");
    assert("internal_module"@.len() == 15);
    reveal_strlit("module");
    assert("module"@.len() == 6);
    reveal_strlit("module_declaration");
    assert("module_declaration"@.len() == 18);
    reveal_strlit("function_declaration");
    assert("function_declaration"@.len() == 20);
    reveal_strlit("method_definition");
    assert("method_definition"@.len() == 17);
    reveal_strlit("method_signature");
    assert("method_signature"@.len() == 16);
    reveal_strlit("class_declaration");
    assert("class_declaration"@.len() == 17);
    reveal_strlit("interface_declaration");
    assert("interface_declaration"@.len() == 21);
    reveal_strlit("type_alias_declaration");
    assert("type_alias_declaration"@.len() == 22);
    reveal_strlit("namespace");
    assert("namespace"@.len() == 9);
    reveal_strlit("function");
    assert("function"@.len() == 8);
    reveal_strlit("method");
    assert("method"@.len() == 6);
    reveal_strlit("class");
    assert("class"@.len() == 5);
    reveal_strlit("interface");
    assert("interface"@.len() == 9);
    reveal_strlit("type_alias");
    assert("type_alias"@.len() == 10);
    assert("import_statement"@[0] != "method_signature"@[0]);
    assert("method_definition"@[0] != "class_declaration"@[0]);
    assert("namespace"@[0] != "interface"@[0]);
}

pub proof fn kinds_of_declarations(source: SourceView, j: int, live: Seq<ScopeView>)
    requires
        0 <= j < source.tree.len() <= usize::MAX,
        extract::step_at(source, j, live).symbol is Some,
    ensures
        is_declared_by(
            source.language,
            extract::step_at(source, j, live).symbol->0,
            source.tree[j].kind,
        ),
{
    branches_are_few(source.tree, source.language, j + 1, syntax::end_of(source.tree, j), Seq::empty());
    syntax::end_from_bounds(source.tree, source.tree[j].depth, j + 1);
    match source.language {
        SupportedLanguage::Rust => {
            words_of_rust();
        },
        SupportedLanguage::Go => {
            words_of_go();
        },
        _ => {
            words_of_typescript();
        },
    }
}

pub proof fn branches_are_few(
    tree: Seq<SyntaxNodeView>,
    language: SupportedLanguage,
    j: int,
    end: int,
    open: Seq<int>,
)
    ensures
        extract::flow_from(tree, language, j, end, open).branches <= if j <= tree.len() {
            tree.len() - j
        } else {
            0
        },
    decreases tree.len() - j,
{
    if !(j < 0 || j >= end || j >= tree.len() || !(j < syntax::end_of(tree, j) <= tree.len())) {
        let live = extract::still_open(open, j);
        branches_are_few(tree, language, syntax::end_of(tree, j), end, live);
        branches_are_few(tree, language, j + 1, end, live);
        branches_are_few(tree, language, j + 1, end, live.push(syntax::end_of(tree, j)));
    }
}

/// An import stands in the lines of the node that makes it, and its kind says how it is written.
pub proof fn imports_span_the_lines_of_their_node(
    path: Seq<char>,
    language: SupportedLanguage,
    flawed: bool,
    nodes: Seq<SyntaxNodeView>,
    bytes: Seq<u8>,
    k: int,
) -> (j: int)
    requires
        0 <= k < extracted(path, language, flawed, nodes, bytes).imports.len(),
    ensures
        0 <= j < nodes.len(),
        nodes[j].named,
        ({
            let import = extracted(path, language, flawed, nodes, bytes).imports[k];
            &&& import.path == path
            &&& import.start_line == nodes[j].start_row + 1
            &&& import.end_line == nodes[j].end_row + 1
            &&& import.target.len() > 0
            &&& match language {
                SupportedLanguage::Rust => {
                    ||| import.kind == "use"@ && nodes[j].kind == "use_declaration"@
                    ||| import.kind == "mod"@ && nodes[j].kind == "mod_item"@
                },
                SupportedLanguage::Go => import.kind == "import"@ && nodes[j].kind
                    == "import_spec"@,
                _ => import.kind == "import"@ && nodes[j].kind == "import_statement"@,
            }
        }),
{
    let source = SourceView { path, language, bytes, tree: nodes };
    let (j, live) = import_has_its_node(source, 0, Seq::empty(), k);
    j
}

} // verus!
