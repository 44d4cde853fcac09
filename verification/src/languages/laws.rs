//! What holds of every Go source that is parsed.

use vstd::prelude::*;

use crate::languages::go;
use crate::languages::{
    FunctionView, ParserOutputView, UniversalFunctionKind, UniversalReferenceView,
    UniversalSymbolView,
};
use crate::syntax;
use crate::syntax::{NodeTest, ParseOutcomeView, SyntaxNodeView};
use crate::text;

verus! {

/// What a Go source with a given tree gives.
pub open spec fn parsed(
    flawed: bool,
    nodes: Seq<SyntaxNodeView>,
    source: Seq<u8>,
) -> ParserOutputView {
    go::output_of_outcome(ParseOutcomeView::Tree { flawed, nodes }, source)
}

/// Whether a node is written as `s`.
pub open spec fn is_written(source: Seq<u8>, node: SyntaxNodeView, s: Seq<char>) -> bool {
    &&& node.start_byte <= node.end_byte <= source.len()
    &&& vstd::utf8::valid_utf8(source.subrange(node.start_byte as int, node.end_byte as int))
    &&& vstd::utf8::decode_utf8(source.subrange(node.start_byte as int, node.end_byte as int)) == s
}

/// Whether node `c` stands directly inside node `i`.
pub open spec fn is_inside(nodes: Seq<SyntaxNodeView>, i: int, c: int) -> bool {
    0 <= i < c < syntax::end_of(nodes, i) && i < nodes.len() && nodes[c].depth == nodes[i].depth + 1
}

/// Whether node `c` is the first one directly inside node `i` that is in a field.
pub open spec fn is_field(nodes: Seq<SyntaxNodeView>, i: int, c: int, field: Seq<char>) -> bool {
    &&& is_inside(nodes, i, c)
    &&& nodes[c].field == Some(field)
    &&& forall|m: int|
        i < m < c && (#[trigger] nodes[m]).depth == nodes[i].depth + 1 ==> nodes[m].field != Some(
            field,
        )
}

/// Whether a node is a string literal.
pub open spec fn is_literal(node: SyntaxNodeView) -> bool {
    node.kind == "interpreted_string_literal"@ || node.kind == "raw_string_literal"@
}

/// Whether node `c` is the first string literal directly inside node `i`.
pub open spec fn is_first_literal(nodes: Seq<SyntaxNodeView>, i: int, c: int) -> bool {
    &&& is_inside(nodes, i, c)
    &&& is_literal(nodes[c])
    &&& forall|m: int|
        i < m < c && (#[trigger] nodes[m]).depth == nodes[i].depth + 1 ==> !is_literal(nodes[m])
}

/// Whether a character quotes a string.
pub open spec fn is_quote(c: char) -> bool {
    c == '"' || c == '`'
}

/// Whether a text neither starts nor ends with a quote.
pub open spec fn is_bare(s: Seq<char>) -> bool {
    s.len() > 0 ==> !is_quote(s[0]) && !is_quote(s.last())
}

proof fn quotes_come_off(t: Seq<char>, quote: char)
    requires
        is_bare(t),
        is_quote(quote),
    ensures
        go::bare_literal(seq![quote] + t + seq![quote]) == t,
{
    let whole = seq![quote] + t + seq![quote];
    reveal_with_fuel(text::strip_start, 3);
    reveal_with_fuel(text::strip_end, 3);
    let opened = t + seq![quote];
    assert(whole.drop_first() =~= opened);
    assert(whole[0] == quote);
    assert(whole.last() == quote);
    assert(opened.drop_last() =~= t);
    assert(opened.last() == quote);
    if t.len() == 0 {
        assert(opened.drop_first() =~= t);
        assert(t =~= Seq::empty());
        assert(opened[0] == quote);
    } else {
        assert(opened[0] == t[0]);
    }
}

proof fn imports_hold(
    nodes: Seq<SyntaxNodeView>,
    source: Seq<u8>,
    j: int,
    end: int,
    b: int,
    target: Seq<char>,
)
    requires
        0 <= j <= b < end <= nodes.len(),
        nodes[b].kind == "import_spec"@,
        go::import_target_of(nodes, source, b) == Some(target),
        forall|m: int|
            j <= m < b && (#[trigger] nodes[m]).kind == "import_spec"@ ==> syntax::end_of(nodes, m)
                <= b,
    ensures
        go::imports_from(nodes, source, j, end).contains(
            UniversalReferenceView { target, kind: "import"@ },
        ),
    decreases b - j,
{
    let one = UniversalReferenceView { target, kind: "import"@ };
    syntax::end_from_bounds(nodes, nodes[j].depth, j + 1);
    let after = syntax::end_of(nodes, j);
    if j == b {
        let rest = go::imports_from(nodes, source, after, end);
        assert((seq![one] + rest)[0] == one);
    } else if nodes[j].kind == "import_spec"@ {
        imports_hold(nodes, source, after, end, b, target);
        let rest = go::imports_from(nodes, source, after, end);
        let n = choose|n: int| 0 <= n < rest.len() && rest[n] == one;
        if let Some(first) = go::import_target_of(nodes, source, j) {
            let here = seq![UniversalReferenceView { target: first, kind: "import"@ }];
            assert((here + rest)[n + 1] == one);
        }
    } else {
        imports_hold(nodes, source, j + 1, end, b, target);
    }
}

/// What stands directly inside the root is looked at.
pub proof fn top_level_is_reached(nodes: Seq<SyntaxNodeView>, source: Seq<u8>, j: int, a: int)
    requires
        syntax::is_tree(nodes),
        1 <= j <= a < nodes.len(),
        nodes[a].depth == 1,
    ensures
        ({
            let whole = go::facts_from(nodes, source, j);
            let here = go::facts_from(nodes, source, a);
            &&& forall|x: UniversalReferenceView| #[trigger]
                here.references.contains(x) ==> whole.references.contains(x)
            &&& forall|x: UniversalSymbolView| #[trigger]
                here.symbols.contains(x) ==> whole.symbols.contains(x)
            &&& forall|x: FunctionView| #[trigger]
                here.functions.contains(x) ==> whole.functions.contains(x)
        }),
    decreases a - j,
{
    if j < a {
        syntax::end_from_bounds(nodes, nodes[j].depth, j + 1);
        let after = syntax::end_of(nodes, j);
        assert(after <= a) by {
            if a < after {
                assert(nodes[a].depth > nodes[j].depth);
                assert(nodes[j].depth > 0);
            }
        }
        let whole = go::facts_from(nodes, source, j);
        top_level_is_reached(nodes, source, j + 1, a);
        top_level_is_reached(nodes, source, after, a);
        let rest = go::facts_from(nodes, source, after);
        if nodes[j].kind == "import_declaration"@ {
            let first = go::imports_from(nodes, source, j + 1, after);
            behind_is_held(first, rest.references);
        } else if nodes[j].kind == "type_declaration"@ {
            let first = go::types_from(nodes, source, j + 1, after);
            behind_is_held(first, rest.symbols);
        } else if let Some(kind) = go::function_kind_of(nodes[j].kind) {
            let name = go::function_name(nodes, source, j);
            behind_is_held(seq![go::function_symbol(name, kind)], rest.symbols);
            behind_is_held(
                seq![
                    FunctionView {
                        name,
                        kind,
                        control_flow: go::function_flow(nodes, source, j),
                    },
                ],
                rest.functions,
            );
        }
    }
}

proof fn behind_is_held<A>(first: Seq<A>, rest: Seq<A>)
    ensures
        forall|x: A| #[trigger] rest.contains(x) ==> (first + rest).contains(x),
        forall|x: A| #[trigger] first.contains(x) ==> (first + rest).contains(x),
{
    assert forall|x: A| #[trigger] rest.contains(x) implies (first + rest).contains(x) by {
        let n = choose|n: int| 0 <= n < rest.len() && rest[n] == x;
        assert((first + rest)[first.len() + n] == x);
    }
    assert forall|x: A| #[trigger] first.contains(x) implies (first + rest).contains(x) by {
        let n = choose|n: int| 0 <= n < first.len() && first[n] == x;
        assert((first + rest)[n] == x);
    }
}

/// An import whose path is written between quotes gives a reference to that path, without the
/// quotes: `a` is an import declaration, `b` one of its imports, and `c` the literal in it.
pub proof fn imports_refer_to_what_is_quoted(
    flawed: bool,
    nodes: Seq<SyntaxNodeView>,
    source: Seq<u8>,
    a: int,
    b: int,
    c: int,
    path: Seq<char>,
    quote: char,
)
    requires
        syntax::is_tree(nodes),
        0 < a < b < syntax::end_of(nodes, a),
        a < nodes.len(),
        nodes[a].depth == 1,
        nodes[a].kind == "import_declaration"@,
        nodes[b].kind == "import_spec"@,
        forall|m: int|
            a < m < b && (#[trigger] nodes[m]).kind == "import_spec"@ ==> syntax::end_of(nodes, m)
                <= b,
        is_first_literal(nodes, b, c),
        is_quote(quote),
        is_bare(path),
        is_written(source, nodes[c], seq![quote] + path + seq![quote]),
    ensures
        parsed(flawed, nodes, source).references.contains(
            UniversalReferenceView { target: path, kind: "import"@ },
        ),
{
    let one = UniversalReferenceView { target: path, kind: "import"@ };
    let literal = seq![quote] + path + seq![quote];
    assert forall|k: int| b < k < c && (#[trigger] nodes[k]).depth == nodes[b].depth
        + 1 implies !syntax::passes(nodes[k], NodeTest::GoStringLiteral) by {}
    syntax::first_child_is_found(nodes, b, c, NodeTest::GoStringLiteral);
    let none = Seq::<char>::empty();
    assert(literal.last() == quote && literal[0] == quote);
    text::trimming_leaves_what_is_inside(none, literal, none);
    assert(none + literal + none =~= literal);
    quotes_come_off(path, quote);
    syntax::end_from_bounds(nodes, nodes[a].depth, a + 1);
    let end = syntax::end_of(nodes, a);
    imports_hold(nodes, source, a + 1, end, b, path);
    let here = go::facts_from(nodes, source, a);
    let rest = go::facts_from(nodes, source, end);
    behind_is_held(go::imports_from(nodes, source, a + 1, end), rest.references);
    assert(here.references.contains(one));
    top_level_is_reached(nodes, source, 1, a);
}

proof fn stripped_ends(s: Seq<char>, c: char)
    ensures
        text::strip_end(s, c).len() > 0 ==> text::strip_end(s, c).last() != c,
        text::strip_end(s, c).len() <= s.len(),
        text::strip_end(s, c) == s.take(text::strip_end(s, c).len() as int),
    decreases s.len(),
{
    if s.len() > 0 && s.last() == c {
        stripped_ends(s.drop_last(), c);
        assert(s.drop_last().take(text::strip_end(s, c).len() as int) =~= s.take(
            text::strip_end(s, c).len() as int,
        ));
    } else {
        assert(s.take(s.len() as int) =~= s);
    }
}

proof fn stripped_starts(s: Seq<char>, c: char)
    ensures
        text::strip_start(s, c).len() > 0 ==> text::strip_start(s, c)[0] != c,
    decreases s.len(),
{
    if s.len() > 0 && s[0] == c {
        stripped_starts(s.drop_first(), c);
    }
}

proof fn import_targets_are_bare(nodes: Seq<SyntaxNodeView>, source: Seq<u8>, j: int, end: int, k: int)
    requires
        0 <= k < go::imports_from(nodes, source, j, end).len(),
    ensures
        go::imports_from(nodes, source, j, end)[k].kind == "import"@,
        ({
            let target = go::imports_from(nodes, source, j, end)[k].target;
            target.len() > 0 ==> target[0] != '`' && target.last() != '`'
        }),
    decreases nodes.len() - j,
{
    let after = syntax::end_of(nodes, j);
    if nodes[j].kind == "import_spec"@ {
        let rest = go::imports_from(nodes, source, after, end);
        if let Some(target) = go::import_target_of(nodes, source, j) {
            if k == 0 {
                let c = syntax::child_of(nodes, j, NodeTest::GoStringLiteral)->0;
                let literal = go::trimmed_text(source, nodes[c])->0;
                let inner = text::strip_end(text::strip_start(literal, '"'), '"');
                stripped_starts(inner, '`');
                stripped_ends(text::strip_start(inner, '`'), '`');
            } else {
                import_targets_are_bare(nodes, source, after, end, k - 1);
            }
        } else {
            import_targets_are_bare(nodes, source, after, end, k);
        }
    } else {
        import_targets_are_bare(nodes, source, j + 1, end, k);
    }
}

proof fn references_are_imports(nodes: Seq<SyntaxNodeView>, source: Seq<u8>, j: int, k: int)
    requires
        0 <= k < go::facts_from(nodes, source, j).references.len(),
    ensures
        go::facts_from(nodes, source, j).references[k].kind == "import"@,
        ({
            let target = go::facts_from(nodes, source, j).references[k].target;
            target.len() > 0 ==> target[0] != '`' && target.last() != '`'
        }),
    decreases nodes.len() - j,
{
    let after = syntax::end_of(nodes, j);
    if nodes[j].kind == "import_declaration"@ {
        let first = go::imports_from(nodes, source, j + 1, after);
        if k < first.len() {
            import_targets_are_bare(nodes, source, j + 1, after, k);
        } else {
            references_are_imports(nodes, source, after, k - first.len());
        }
    } else if nodes[j].kind == "type_declaration"@ || go::function_kind_of(nodes[j].kind) is Some {
        references_are_imports(nodes, source, after, k);
    } else {
        references_are_imports(nodes, source, j + 1, k);
    }
}

/// A Go source refers to other things by imports only, and no target keeps a backquote at an end.
pub proof fn references_are_bare_imports(
    flawed: bool,
    nodes: Seq<SyntaxNodeView>,
    source: Seq<u8>,
    k: int,
)
    requires
        0 <= k < parsed(flawed, nodes, source).references.len(),
    ensures
        parsed(flawed, nodes, source).references[k].kind == "import"@,
        ({
            let target = parsed(flawed, nodes, source).references[k].target;
            target.len() > 0 ==> target[0] != '`' && target.last() != '`'
        }),
{
    references_are_imports(nodes, source, 1, k);
}

/// Whether a text is not empty and has no white space around it.
pub open spec fn is_trim(s: Seq<char>) -> bool {
    s.len() > 0 && !text::is_white(s[0]) && !text::is_white(s.last())
}

pub proof fn field_text(nodes: Seq<SyntaxNodeView>, source: Seq<u8>, i: int, c: int, name: Seq<char>)
    requires
        syntax::is_tree(nodes),
        is_field(nodes, i, c, "name"@),
        is_written(source, nodes[c], name),
        is_trim(name),
    ensures
        go::field_name_of(nodes, source, i) == Some(name),
{
    assert forall|k: int| i < k < c && (#[trigger] nodes[k]).depth == nodes[i].depth
        + 1 implies !syntax::passes(nodes[k], NodeTest::NameField) by {}
    syntax::first_child_is_found(nodes, i, c, NodeTest::NameField);
    let none = Seq::<char>::empty();
    text::trimming_leaves_what_is_inside(none, name, none);
    assert(none + name + none =~= name);
}

/// A function or method directly inside the root gives a symbol and a function, both with the
/// name that its `name` field holds.
pub proof fn functions_have_their_names(
    flawed: bool,
    nodes: Seq<SyntaxNodeView>,
    source: Seq<u8>,
    a: int,
    c: int,
    name: Seq<char>,
)
    requires
        syntax::is_tree(nodes),
        0 < a < nodes.len(),
        nodes[a].depth == 1,
        nodes[a].kind == "function_declaration"@ || nodes[a].kind == "method_declaration"@,
        is_field(nodes, a, c, "name"@),
        is_written(source, nodes[c], name),
        is_trim(name),
    ensures
        ({
            let out = parsed(flawed, nodes, source);
            let is_method = nodes[a].kind == "method_declaration"@;
            &&& out.symbols.contains(
                UniversalSymbolView {
                    name,
                    kind: if is_method {
                        "method"@
                    } else {
                        "function"@
                    },
                },
            )
            &&& exists|f: FunctionView| #[trigger]
                out.functions.contains(f) && f.name == name && f.kind == (if is_method {
                    UniversalFunctionKind::Method
                } else {
                    UniversalFunctionKind::Function
                })
        }),
{
    go_words();
    field_text(nodes, source, a, c, name);
    syntax::end_from_bounds(nodes, nodes[a].depth, a + 1);
    let kind = go::function_kind_of(nodes[a].kind)->0;
    let end = syntax::end_of(nodes, a);
    let rest = go::facts_from(nodes, source, end);
    let here = go::facts_from(nodes, source, a);
    let symbol = go::function_symbol(name, kind);
    let function = FunctionView {
        name,
        kind,
        control_flow: go::function_flow(nodes, source, a),
    };
    assert(here.symbols[0] == symbol);
    assert(here.functions[0] == function);
    assert(here.symbols.contains(symbol));
    assert(here.functions.contains(function));
    top_level_is_reached(nodes, source, 1, a);
    assert(parsed(flawed, nodes, source).functions.contains(function));
}

pub proof fn go_words()
    ensures
        "import_declaration"@ != "function_declaration"@,
        "import_declaration"@ != "method_declaration"@,
        "import_declaration"@ != "type_declaration"@,
        "type_declaration"@ != "function_declaration"@,
        "type_declaration"@ != "method_declaration"@,
        "function_declaration"@ != "method_declaration"@,
{
    reveal_strlit("import_declaration");
    reveal_strlit("function_declaration");
    reveal_strlit("method_declaration");
    reveal_strlit("type_declaration");
    assert("import_declaration"@.len() == 18);
    assert("function_declaration"@.len() == 20);
    assert("method_declaration"@.len() == 18);
    assert("type_declaration"@.len() == 16);
    assert("import_declaration"@[0] != "method_declaration"@[0]);
}

proof fn types_hold(
    nodes: Seq<SyntaxNodeView>,
    source: Seq<u8>,
    j: int,
    end: int,
    b: int,
    name: Seq<char>,
)
    requires
        0 <= j <= b < end <= nodes.len(),
        nodes[b].kind == "type_spec"@,
        go::field_name_of(nodes, source, b) == Some(name),
        forall|m: int|
            j <= m < b && (#[trigger] nodes[m]).kind == "type_spec"@ ==> syntax::end_of(nodes, m)
                <= b,
    ensures
        go::types_from(nodes, source, j, end).contains(
            UniversalSymbolView { name, kind: go::type_kind_of(nodes, b) },
        ),
    decreases b - j,
{
    let one = UniversalSymbolView { name, kind: go::type_kind_of(nodes, b) };
    syntax::end_from_bounds(nodes, nodes[j].depth, j + 1);
    let after = syntax::end_of(nodes, j);
    if j == b {
        let rest = go::types_from(nodes, source, after, end);
        assert((seq![one] + rest)[0] == one);
    } else if nodes[j].kind == "type_spec"@ {
        types_hold(nodes, source, after, end, b, name);
        let rest = go::types_from(nodes, source, after, end);
        let n = choose|n: int| 0 <= n < rest.len() && rest[n] == one;
        if let Some(first) = go::field_name_of(nodes, source, j) {
            let here = seq![UniversalSymbolView { name: first, kind: go::type_kind_of(nodes, j) }];
            assert((here + rest)[n + 1] == one);
        }
    } else {
        types_hold(nodes, source, j + 1, end, b, name);
    }
}

/// A type that a declaration directly inside the root defines gives a symbol with its name: a
/// struct or an interface where node `d`, the first of these directly inside it, is one.
pub proof fn types_are_what_they_define(
    flawed: bool,
    nodes: Seq<SyntaxNodeView>,
    source: Seq<u8>,
    a: int,
    b: int,
    c: int,
    d: int,
    name: Seq<char>,
)
    requires
        syntax::is_tree(nodes),
        0 < a < b < syntax::end_of(nodes, a),
        a < nodes.len(),
        nodes[a].depth == 1,
        nodes[a].kind == "type_declaration"@,
        nodes[b].kind == "type_spec"@,
        forall|m: int|
            a < m < b && (#[trigger] nodes[m]).kind == "type_spec"@ ==> syntax::end_of(nodes, m)
                <= b,
        is_field(nodes, b, c, "name"@),
        is_written(source, nodes[c], name),
        is_trim(name),
        is_inside(nodes, b, d),
        nodes[d].kind == "struct_type"@ || nodes[d].kind == "interface_type"@,
        forall|m: int|
            b < m < syntax::end_of(nodes, b) && m != d && (#[trigger] nodes[m]).depth
                == nodes[b].depth + 1 ==> nodes[m].kind != "struct_type"@ && nodes[m].kind
                != "interface_type"@,
    ensures
        parsed(flawed, nodes, source).symbols.contains(
            UniversalSymbolView {
                name,
                kind: if nodes[d].kind == "struct_type"@ {
                    "struct"@
                } else {
                    "interface"@
                },
            },
        ),
{
    go_words();
    reveal_strlit("struct_type");
    reveal_strlit("interface_type");
    assert("struct_type"@.len() == 11 && "interface_type"@.len() == 14);
    field_text(nodes, source, b, c, name);
    syntax::end_from_bounds(nodes, nodes[a].depth, a + 1);
    syntax::end_from_bounds(nodes, nodes[b].depth, b + 1);
    let end = syntax::end_of(nodes, a);
    types_hold(nodes, source, a + 1, end, b, name);
    if nodes[d].kind == "struct_type"@ {
        syntax::first_child_is_found(nodes, b, d, NodeTest::StructType);
        no_child_is_found(nodes, b, NodeTest::InterfaceType);
    } else {
        syntax::first_child_is_found(nodes, b, d, NodeTest::InterfaceType);
        no_child_is_found(nodes, b, NodeTest::StructType);
    }
    let symbol = UniversalSymbolView { name, kind: go::type_kind_of(nodes, b) };
    let here = go::facts_from(nodes, source, a);
    let rest = go::facts_from(nodes, source, end);
    behind_is_held(go::types_from(nodes, source, a + 1, end), rest.symbols);
    assert(here.symbols.contains(symbol));
    top_level_is_reached(nodes, source, 1, a);
}

pub proof fn no_child_is_found(nodes: Seq<SyntaxNodeView>, i: int, test: NodeTest)
    requires
        syntax::is_tree(nodes),
        0 <= i < nodes.len(),
        forall|m: int|
            i < m < syntax::end_of(nodes, i) && (#[trigger] nodes[m]).depth == nodes[i].depth + 1
                ==> !syntax::passes(nodes[m], test),
    ensures
        syntax::child_of(nodes, i, test) is None,
{
    syntax::end_from_bounds(nodes, nodes[i].depth, i + 1);
    if i + 1 < syntax::end_of(nodes, i) {
        assert(nodes[i + 1].depth <= nodes[i].depth + 1);
        no_sibling_is_found(nodes, i, i + 1, test);
    }
}

proof fn no_sibling_is_found(nodes: Seq<SyntaxNodeView>, i: int, m: int, test: NodeTest)
    requires
        0 <= i < m <= syntax::end_of(nodes, i) <= nodes.len(),
        m < syntax::end_of(nodes, i) ==> nodes[m].depth == nodes[i].depth + 1,
        forall|k: int|
            i < k < syntax::end_of(nodes, i) ==> (#[trigger] nodes[k]).depth > nodes[i].depth,
        forall|k: int|
            i < k < syntax::end_of(nodes, i) && (#[trigger] nodes[k]).depth == nodes[i].depth + 1
                ==> !syntax::passes(nodes[k], test),
    ensures
        syntax::sibling_from(nodes, m, syntax::end_of(nodes, i), test) is None,
    decreases nodes.len() - m,
{
    let end = syntax::end_of(nodes, i);
    if m < end {
        syntax::end_from_bounds(nodes, nodes[m].depth, m + 1);
        let next = syntax::end_of(nodes, m);
        if next <= end {
            no_sibling_is_found(nodes, i, next, test);
        }
    }
}

} // verus!
