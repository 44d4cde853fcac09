//! To which types the methods of Go belong.

use vstd::prelude::*;

use crate::languages;
use crate::parse::extract;
use crate::parse::extract::SourceView;
use crate::parse::found;
use crate::parse::laws;
use crate::syntax;
use crate::syntax::{NodeTest, SupportedLanguage, SyntaxNodeView};
use crate::text;

verus! {

/// Whether a text is the name of a type as receivers hold it.
pub open spec fn is_type_name(name: Seq<char>) -> bool {
    text::laws::is_word(name) && name[0] != '*' && name[0] != '&' && name[0] != '(' && name.last()
        != ')'
}

/// A receiver of a type: a name, a space, a pointer sign or none, and the type, in parentheses.
pub open spec fn receiver(own: Seq<char>, pointed: bool, name: Seq<char>) -> Seq<char> {
    seq!['('] + (own + " "@ + (if pointed {
        seq!['*'] + name
    } else {
        name
    })) + seq![')']
}

proof fn receivers_name_their_type(own: Seq<char>, pointed: bool, name: Seq<char>)
    requires
        text::laws::is_word(own),
        own[0] != '(',
        is_type_name(name),
    ensures
        extract::receiver_type(receiver(own, pointed, name)) == Some(name),
{
    reveal_strlit(" ");
    let none = Seq::<char>::empty();
    let whole = receiver(own, pointed, name);
    let held = if pointed {
        seq!['*'] + name
    } else {
        name
    };
    assert(text::laws::is_word(held)) by {
        assert(!text::is_white('*'));
        assert forall|i: int| 0 <= i < held.len() implies !text::is_white(#[trigger] held[i]) by {
            if pointed && i > 0 {
                assert(held[i] == name[i - 1]);
            }
        }
    }
    let words = seq![own, held];
    let bare = own + " "@ + held;
    assert(text::joined(words, " "@) == bare) by {
        reveal_with_fuel(text::joined, 2);
        assert(words.drop_last()[0] == own);
        assert(words.last() == held);
    }
    assert forall|i: int| 0 <= i < words.len() implies text::laws::is_word(#[trigger] words[i]) by {
        if i == 0 {
            assert(words[i] == own);
        } else {
            assert(words[i] == held);
        }
    }
    text::laws::joined_words_are_words(words);
    assert(!text::is_white('(') && !text::is_white(')'));
    assert(whole[0] == '(' && whole.last() == ')');
    text::trimming_leaves_what_is_inside(none, whole, none);
    assert(none + whole + none =~= whole);
    reveal_with_fuel(text::strip_start, 3);
    reveal_with_fuel(text::strip_end, 3);
    let opened = bare + seq![')'];
    assert(whole.drop_first() =~= opened);
    assert(opened[0] == own[0]);
    assert(opened.drop_last() =~= bare);
    assert(opened.last() == ')');
    assert(bare.last() == name.last());
    assert(words.last() == held);
    if pointed {
        assert(held.drop_first() =~= name);
    }
    assert(name.last() == name[name.len() - 1]);
    text::trimming_leaves_what_is_inside(none, name, none);
    assert(none + name + none =~= name);
}

/// A method of Go belongs to the type that its receiver names, pointed to or not.
pub proof fn methods_belong_to_their_receiver(
    path: Seq<char>,
    flawed: bool,
    nodes: Seq<SyntaxNodeView>,
    bytes: Seq<u8>,
    j: int,
    c: int,
    method: Seq<char>,
    r: int,
    own: Seq<char>,
    pointed: bool,
    name: Seq<char>,
) -> (k: int)
    requires
        syntax::is_tree(nodes),
        nodes.len() <= usize::MAX,
        0 <= j < nodes.len(),
        nodes[j].named,
        nodes[j].kind == "method_declaration"@,
        found::is_reached(nodes, SupportedLanguage::Go, j),
        languages::laws::is_field(nodes, j, c, "name"@),
        languages::laws::is_written(bytes, nodes[c], method),
        text::laws::is_word(method),
        languages::laws::is_field(nodes, j, r, "receiver"@),
        languages::laws::is_written(bytes, nodes[r], receiver(own, pointed, name)),
        text::laws::is_word(own),
        own[0] != '(',
        is_type_name(name),
    ensures
        0 <= k < laws::extracted(path, SupportedLanguage::Go, flawed, nodes, bytes).symbols.len(),
        ({
            let symbol = laws::extracted(
                path,
                SupportedLanguage::Go,
                flawed,
                nodes,
                bytes,
            ).symbols[k];
            symbol.name == method && symbol.kind == "method"@ && symbol.parent == Some(name)
        }),
{
    let source = SourceView { path, language: SupportedLanguage::Go, bytes, tree: nodes };
    assert forall|m: int| j < m < r && (#[trigger] nodes[m]).depth == nodes[j].depth
        + 1 implies !syntax::passes(nodes[m], NodeTest::ReceiverField) by {}
    syntax::first_child_is_found(nodes, j, r, NodeTest::ReceiverField);
    receivers_name_their_type(own, pointed, name);
    found::name_is_read(nodes, bytes, j, c, method);
    laws::words_of_go();
    let found = found::step_is_found(source, 0, Seq::empty(), j);
    found.0
}

} // verus!
