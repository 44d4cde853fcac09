//! What stands around the symbols that an extraction finds.

use vstd::prelude::*;

use crate::languages;
use crate::languages::go;
use crate::parse::extract;
use crate::parse::extract::{ScopeView, SourceView};
use crate::parse::found;
use crate::parse::laws;
use crate::parse::ParseSymbolRecordView;
use crate::syntax;
use crate::syntax::{SupportedLanguage, SyntaxNodeView};
use crate::text;

verus! {

/// Whether what is declared inside a node of a kind belongs to it by its name.
pub open spec fn holds_others(language: SupportedLanguage, kind: Seq<char>) -> bool {
    match language {
        SupportedLanguage::Rust => kind == "mod_item"@ || kind == "trait_item"@ || kind
            == "function_item"@,
        SupportedLanguage::Go => false,
        _ => kind == "internal_module"@ || kind == "module"@ || kind == "module_declaration"@ || kind
            == "function_declaration"@ || kind == "method_definition"@ || kind
            == "method_signature"@ || kind == "class_declaration"@ || kind
            == "interface_declaration"@,
    }
}

/// Whether node `m` stands around node `j`.
pub open spec fn is_around(nodes: Seq<SyntaxNodeView>, m: int, j: int) -> bool {
    0 <= m < j && j < syntax::end_of(nodes, m)
}

/// Whether node `m` has a name.
pub open spec fn is_called(
    nodes: Seq<SyntaxNodeView>,
    bytes: Seq<u8>,
    m: int,
    name: Seq<char>,
) -> bool {
    text::laws::is_word(name) && exists|c: int|
        #![trigger nodes[c]]
        languages::laws::is_field(nodes, m, c, "name"@) && languages::laws::is_written(
            bytes,
            nodes[c],
            name,
        )
}

/// Whether `around` are all nodes around node `j` that hold others, outermost first, and `names`
/// their names.
pub open spec fn are_around(
    source: SourceView,
    j: int,
    around: Seq<int>,
    names: Seq<Seq<char>>,
) -> bool {
    &&& around.len() == names.len()
    &&& forall|k: int, l: int| 0 <= k < l < around.len() ==> around[k] < around[l]
    &&& forall|k: int|
        0 <= k < around.len() ==> is_around(source.tree, #[trigger] around[k], j) && holds_others(
            source.language,
            source.tree[around[k]].kind,
        ) && is_called(source.tree, source.bytes, around[k], names[k])
    &&& forall|m: int| #[trigger]
        is_around(source.tree, m, j) && holds_others(source.language, source.tree[m].kind)
            ==> around.contains(m)
}

proof fn steps_open_scopes(source: SourceView, i: int, live: Seq<ScopeView>)
    ensures
        ({
            let scope = extract::step_at(source, i, live).scope;
            let kind = source.tree[i].kind;
            &&& scope matches Some(scope) ==> scope.end == syntax::end_of(source.tree, i)
            &&& scope is Some ==> holds_others(source.language, kind) || kind == "impl_item"@
            &&& holds_others(source.language, kind) ==> (extract::name_of(
                source.tree,
                source.bytes,
                i,
            ) matches Some(name) ==> scope is Some && scope->0.name == name)
        }),
{
    laws::words_of_rust();
    laws::words_of_go();
    laws::words_of_typescript();
}

proof fn names_are_read(source: SourceView, m: int, name: Seq<char>)
    requires
        syntax::is_tree(source.tree),
        is_called(source.tree, source.bytes, m, name),
    ensures
        extract::name_of(source.tree, source.bytes, m) == Some(name),
{
    let c = choose|c: int|
        #![trigger source.tree[c]]
        languages::laws::is_field(source.tree, m, c, "name"@) && languages::laws::is_written(
            source.bytes,
            source.tree[c],
            name,
        );
    found::name_is_read(source.tree, source.bytes, m, c, name);
}

/// Leaving scopes takes those away that have ended, and none of the others.
proof fn ended_scopes_are_left(base: Seq<ScopeView>, extra: Seq<ScopeView>, i: int) -> (kept: int)
    requires
        forall|k: int| 0 <= k < base.len() ==> (#[trigger] base[k]).end > i,
    ensures
        0 <= kept <= extra.len(),
        extract::scopes_at(base + extra, i) == base + extra.take(kept),
        (forall|k: int| 0 <= k < extra.len() ==> (#[trigger] extra[k]).end <= i) ==> kept == 0,
    decreases extra.len(),
{
    let all = base + extra;
    if extra.len() == 0 {
        assert(all =~= base);
        assert(base + extra.take(0) =~= base);
        if base.len() > 0 {
            assert(base[base.len() - 1] == base.last());
        }
        0
    } else {
        assert(all.last() == extra[extra.len() - 1]);
        if all.last().end <= i {
            let fewer = extra.drop_last();
            assert(all.drop_last() =~= base + fewer);
            let kept = ended_scopes_are_left(base, fewer, i);
            assert(fewer.take(kept) =~= extra.take(kept));
            if forall|k: int| 0 <= k < extra.len() ==> (#[trigger] extra[k]).end <= i {
                assert forall|k: int| 0 <= k < fewer.len() implies (#[trigger] fewer[k]).end
                    <= i by {
                    assert(fewer[k] == extra[k]);
                }
            }
            kept
        } else {
            assert(extra.take(extra.len() as int) =~= extra);
            extra.len() as int
        }
    }
}

/// What is known on the way to node `j`, at node `i`: the scopes of the first `k` nodes around `j`,
/// and behind them scopes of nodes that end before `j`, from which they are.
pub open spec fn is_on_the_way(
    source: SourceView,
    j: int,
    around: Seq<int>,
    names: Seq<Seq<char>>,
    i: int,
    k: int,
    base: Seq<ScopeView>,
    extra: Seq<ScopeView>,
    from: Seq<int>,
) -> bool {
    &&& 0 <= i <= j
    &&& 0 <= k <= around.len()
    &&& k < around.len() ==> i <= around[k]
    &&& forall|l: int| 0 <= l < k ==> #[trigger] around[l] < i
    &&& base.len() == k
    &&& forall|l: int| 0 <= l < k ==> (#[trigger] base[l]).end > j && base[l].name == names[l]
    &&& extra.len() == from.len()
    &&& forall|l: int|
        0 <= l < extra.len() ==> (#[trigger] extra[l]).end <= j && 0 <= from[l] < i
            && extra[l].end == syntax::end_of(source.tree, from[l])
}

/// A node that does not stand around `j` has none inside it that does.
proof fn nodes_around_are_not_inside_others(nodes: Seq<SyntaxNodeView>, i: int, m: int, j: int)
    requires
        0 <= i < m < j < nodes.len(),
        syntax::end_of(nodes, i) <= j,
        is_around(nodes, m, j),
    ensures
        syntax::end_of(nodes, i) <= m,
{
    if m < syntax::end_of(nodes, i) {
        go::inner_nodes_end_before(nodes, i, m);
    }
}

/// The symbol that node `i` gives, inside scopes.
#[verifier::opaque]
spec fn symbol_in(source: SourceView, i: int, live: Seq<ScopeView>) -> Option<
    ParseSymbolRecordView,
> {
    extract::step_at(source, i, live).symbol
}

/// Whether `all` are `rest` with `first` symbols before them.
spec fn go_before(
    all: Seq<ParseSymbolRecordView>,
    first: int,
    rest: Seq<ParseSymbolRecordView>,
) -> bool {
    0 <= first && all.len() == first + rest.len() && forall|n: int|
        0 <= n < rest.len() ==> all[first + n] == #[trigger] rest[n]
}

/// What is found behind node `i`, which is not `j`, and in which scopes.
proof fn one_step(source: SourceView, i: int, scopes: Seq<ScopeView>, j: int) -> (next: (
    int,
    Option<ScopeView>,
    int,
))
    requires
        0 <= i < j < source.tree.len(),
        is_around(source.tree, i, j) ==> source.tree[i].named && found::is_looked_into(
            source.language,
            source.tree[i].kind,
        ),
    ensures
        next.0 == i + 1 || (!is_around(source.tree, i, j) && next.0 == syntax::end_of(
            source.tree,
            i,
        )),
        next.1 matches Some(scope) ==> scope.end == syntax::end_of(source.tree, i) && (holds_others(
            source.language,
            source.tree[i].kind,
        ) || source.tree[i].kind == "impl_item"@),
        is_around(source.tree, i, j) && holds_others(source.language, source.tree[i].kind) ==> (
        extract::name_of(source.tree, source.bytes, i) matches Some(name) ==> next.1 is Some
            && next.1->0.name == name),
        go_before(
            extract::findings_from(source, i, scopes).symbols,
            next.2,
            extract::findings_from(
                source,
                next.0,
                extract::with_scope(extract::scopes_at(scopes, i), next.1),
            ).symbols,
        ),
{
    let tree = source.tree;
    let end = syntax::end_of(tree, i);
    let live = extract::scopes_at(scopes, i);
    syntax::end_from_bounds(tree, tree[i].depth, i + 1);
    if !tree[i].named {
        (end, None, 0)
    } else {
        steps_open_scopes(source, i, live);
        if is_around(tree, i, j) {
            found::looked_into_steps_go_inside(source, i, live);
        }
        let step = extract::step_at(source, i, live);
        (
            if step.inside {
                i + 1
            } else {
                end
            },
            step.scope,
            if step.symbol is Some {
                1
            } else {
                0
            },
        )
    }
}

/// The symbol of node `j` comes first behind it.
proof fn last_step(source: SourceView, j: int, scopes: Seq<ScopeView>)
    requires
        0 <= j < source.tree.len(),
        source.tree[j].named,
    ensures
        symbol_in(source, j, extract::scopes_at(scopes, j)) matches Some(symbol) ==> {
            let all = extract::findings_from(source, j, scopes).symbols;
            all.len() > 0 && all[0] == symbol
        },
{
    reveal(symbol_in);
    syntax::end_from_bounds(source.tree, source.tree[j].depth, j + 1);
}

/// The way goes on behind a node that does not stand around `j`.
proof fn way_past(
    source: SourceView,
    j: int,
    around: Seq<int>,
    names: Seq<Seq<char>>,
    i: int,
    k: int,
    base: Seq<ScopeView>,
    extra: Seq<ScopeView>,
    from: Seq<int>,
    kept: int,
    next: int,
    scope: Option<ScopeView>,
) -> (more: (Seq<ScopeView>, Seq<int>))
    requires
        0 <= i < j < source.tree.len(),
        are_around(source, j, around, names),
        is_on_the_way(source, j, around, names, i, k, base, extra, from),
        !is_around(source.tree, i, j),
        0 <= kept <= extra.len(),
        next == i + 1 || next == syntax::end_of(source.tree, i),
        scope matches Some(scope) ==> scope.end == syntax::end_of(source.tree, i),
    ensures
        is_on_the_way(source, j, around, names, next, k, base, more.0, more.1),
        base + more.0 == extract::with_scope(base + extra.take(kept), scope),
{
    syntax::end_from_bounds(source.tree, source.tree[i].depth, i + 1);
    if k < around.len() {
        assert(is_around(source.tree, around[k], j));
        assert(around[k] != i);
        nodes_around_are_not_inside_others(source.tree, i, around[k], j);
    }
    let left = extra.take(kept);
    let origins = from.take(kept);
    assert forall|l: int| 0 <= l < left.len() implies (#[trigger] left[l]).end <= j && 0
        <= origins[l] < next && left[l].end == syntax::end_of(source.tree, origins[l]) by {
        assert(left[l] == extra[l]);
        assert(origins[l] == from[l]);
    }
    match scope {
        Some(scope) => {
            let more = left.push(scope);
            let since = origins.push(i);
            assert(base + more =~= (base + left).push(scope));
            assert forall|l: int| 0 <= l < more.len() implies (#[trigger] more[l]).end <= j && 0
                <= since[l] < next && more[l].end == syntax::end_of(source.tree, since[l]) by {
                if l < left.len() {
                    assert(more[l] == left[l]);
                    assert(since[l] == origins[l]);
                }
            }
            (more, since)
        },
        None => (left, origins),
    }
}

/// At a node around `j`, all scopes of others have ended.
proof fn others_have_ended(
    source: SourceView,
    j: int,
    around: Seq<int>,
    names: Seq<Seq<char>>,
    i: int,
    k: int,
    base: Seq<ScopeView>,
    extra: Seq<ScopeView>,
    from: Seq<int>,
)
    requires
        j < source.tree.len(),
        is_on_the_way(source, j, around, names, i, k, base, extra, from),
        i == j || is_around(source.tree, i, j),
    ensures
        forall|l: int| 0 <= l < extra.len() ==> (#[trigger] extra[l]).end <= i,
{
    assert forall|l: int| 0 <= l < extra.len() implies (#[trigger] extra[l]).end <= i by {
        let m = from[l];
        if i < j && i < syntax::end_of(source.tree, m) {
            go::inner_nodes_end_before(source.tree, m, i);
        }
    }
}

/// The way goes on inside a node around `j`.
proof fn way_into(
    source: SourceView,
    j: int,
    around: Seq<int>,
    names: Seq<Seq<char>>,
    i: int,
    k: int,
    base: Seq<ScopeView>,
    extra: Seq<ScopeView>,
    from: Seq<int>,
    scope: Option<ScopeView>,
) -> (more: (int, Seq<ScopeView>))
    requires
        syntax::is_tree(source.tree),
        0 <= i < j < source.tree.len(),
        are_around(source, j, around, names),
        is_on_the_way(source, j, around, names, i, k, base, extra, from),
        is_around(source.tree, i, j),
        scope is Some ==> holds_others(source.language, source.tree[i].kind),
        scope matches Some(scope) ==> scope.end == syntax::end_of(source.tree, i),
        holds_others(source.language, source.tree[i].kind) ==> (extract::name_of(
            source.tree,
            source.bytes,
            i,
        ) matches Some(name) ==> scope is Some && scope->0.name == name),
    ensures
        is_on_the_way(
            source,
            j,
            around,
            names,
            i + 1,
            more.0,
            more.1,
            Seq::empty(),
            Seq::empty(),
        ),
        more.1 == extract::with_scope(base, scope),
{
    if holds_others(source.language, source.tree[i].kind) {
        let l = choose|l: int| 0 <= l < around.len() && around[l] == i;
        assert(l == k) by {
            if l < k {
                assert(around[l] < i);
            }
            if k < l {
                assert(around[k] < around[l]);
            }
        }
        assert(is_around(source.tree, around[k], j));
        assert(is_called(source.tree, source.bytes, around[k], names[k]));
        names_are_read(source, i, names[k]);
        let more = base.push(scope->0);
        assert forall|l: int| 0 <= l < k + 1 implies (#[trigger] more[l]).end > j && more[l].name
            == names[l] by {
            if l < k {
                assert(more[l] == base[l]);
            }
        }
        assert forall|l: int| 0 <= l < k + 1 implies #[trigger] around[l] < i + 1 by {}
        if k + 1 < around.len() {
            assert(around[k] < around[k + 1]);
        }
        (k + 1, more)
    } else {
        if k < around.len() {
            assert(is_around(source.tree, around[k], j));
            assert(holds_others(source.language, source.tree[around[k]].kind));
            assert(around[k] != i);
        }
        (k, base)
    }
}

proof fn scopes_are_those_around(
    source: SourceView,
    j: int,
    around: Seq<int>,
    names: Seq<Seq<char>>,
    i: int,
    k: int,
    base: Seq<ScopeView>,
    extra: Seq<ScopeView>,
    from: Seq<int>,
) -> (found: (int, Seq<ScopeView>))
    requires
        syntax::is_tree(source.tree),
        j < source.tree.len(),
        source.tree[j].named,
        found::is_reached(source.tree, source.language, j),
        are_around(source, j, around, names),
        forall|m: int| #[trigger]
            is_around(source.tree, m, j) ==> source.tree[m].kind != "impl_item"@,
        is_on_the_way(source, j, around, names, i, k, base, extra, from),
    ensures
        symbol_in(source, j, found.1) matches Some(symbol) ==> {
            let all = extract::findings_from(source, i, base + extra).symbols;
            0 <= found.0 < all.len() && all[found.0] == symbol
        },
        extract::scope_names(found.1) == names,
    decreases j - i,
{
    assert forall|l: int| 0 <= l < base.len() implies (#[trigger] base[l]).end > i by {}
    let kept = ended_scopes_are_left(base, extra, i);
    if i == j {
        others_have_ended(source, j, around, names, i, k, base, extra, from);
        if k < around.len() {
            assert(is_around(source.tree, around[k], j));
        }
        assert(base + extra.take(kept) =~= base);
        assert(extract::scope_names(base) =~= names);
        last_step(source, j, base + extra);
        (0, base)
    } else {
        syntax::end_from_bounds(source.tree, source.tree[i].depth, i + 1);
        if is_around(source.tree, i, j) {
            assert(j < syntax::end_of(source.tree, i));
        }
        let next = one_step(source, i, base + extra, j);
        if is_around(source.tree, i, j) {
            others_have_ended(source, j, around, names, i, k, base, extra, from);
            assert(base + extra.take(kept) =~= base);
            let more = way_into(source, j, around, names, i, k, base, extra, from, next.1);
            let none = Seq::<ScopeView>::empty();
            assert(more.1 + none =~= more.1);
            let found = scopes_are_those_around(
                source,
                j,
                around,
                names,
                i + 1,
                more.0,
                more.1,
                none,
                Seq::empty(),
            );
            (next.2 + found.0, found.1)
        } else {
            let more = way_past(
                source,
                j,
                around,
                names,
                i,
                k,
                base,
                extra,
                from,
                kept,
                next.0,
                next.1,
            );
            let found = scopes_are_those_around(
                source,
                j,
                around,
                names,
                next.0,
                k,
                base,
                more.0,
                more.1,
            );
            (next.2 + found.0, found.1)
        }
    }
}

/// A symbol is nested as deep as there are nodes around it that hold others, and belongs to the
/// path of their names.
pub proof fn symbols_belong_to_what_is_around(
    path: Seq<char>,
    language: SupportedLanguage,
    flawed: bool,
    nodes: Seq<SyntaxNodeView>,
    bytes: Seq<u8>,
    j: int,
    name: Seq<char>,
    around: Seq<int>,
    names: Seq<Seq<char>>,
) -> (k: int)
    requires
        syntax::is_tree(nodes),
        nodes.len() <= usize::MAX,
        0 <= j < nodes.len(),
        nodes[j].named,
        found::is_named_declaration(language, nodes[j].kind),
        language != SupportedLanguage::Go,
        found::is_reached(nodes, language, j),
        is_called(nodes, bytes, j, name),
        are_around(SourceView { path, language, bytes, tree: nodes }, j, around, names),
        around.len() <= u64::MAX,
        forall|m: int| #[trigger] is_around(nodes, m, j) ==> nodes[m].kind != "impl_item"@,
    ensures
        0 <= k < laws::extracted(path, language, flawed, nodes, bytes).symbols.len(),
        ({
            let symbol = laws::extracted(path, language, flawed, nodes, bytes).symbols[k];
            &&& symbol.name == name
            &&& symbol.start_line == nodes[j].start_row + 1
            &&& symbol.nesting_depth == around.len()
            &&& around.len() == 0 ==> symbol.parent is None
            &&& around.len() > 0 ==> symbol.parent == Some(text::joined(names, "::"@))
        }),
{
    let source = SourceView { path, language, bytes, tree: nodes };
    let none = Seq::<ScopeView>::empty();
    names_are_read(source, j, name);
    let found = scopes_are_those_around(
        source,
        j,
        around,
        names,
        0,
        0,
        none,
        none,
        Seq::empty(),
    );
    assert(none + none =~= none);
    reveal(symbol_in);
    laws::words_of_rust();
    laws::words_of_typescript();
    assert(extract::scope_names(found.1).len() == found.1.len());
    found.0
}

} // verus!
