//! What holds of all texts.

use vstd::prelude::*;

use crate::text;

verus! {

/// Whether a text is not empty and holds no white space.
pub open spec fn is_word(s: Seq<char>) -> bool {
    s.len() > 0 && forall|i: int| 0 <= i < s.len() ==> !text::is_white(#[trigger] s[i])
}

/// A word that follows white space, or starts a text, is one more of its words; further white
/// space behind it changes nothing.
pub proof fn words_follow_white_space(s: Seq<char>, word: Seq<char>, white: char)
    requires
        s.len() == 0 || text::is_white(s.last()),
        is_word(word),
        text::is_white(white),
    ensures
        text::words(s + word) == text::words(s).push(word),
        text::words((s + word).push(white)) == text::words(s).push(word),
    decreases word.len(),
{
    let whole = s + word;
    let front = word.drop_last();
    assert(whole.drop_last() =~= s + front);
    assert(whole.last() == word[word.len() - 1]);
    assert(whole.push(white).drop_last() =~= whole);
    if word.len() == 1 {
        assert(front =~= Seq::empty());
        assert(s + front =~= s);
        assert(word =~= seq![word.last()]);
        if s.len() > 0 {
            assert(whole[whole.len() - 2] == s.last());
        }
    } else {
        assert forall|i: int| 0 <= i < front.len() implies !text::is_white(#[trigger] front[i]) by {
            assert(front[i] == word[i]);
        }
        words_follow_white_space(s, front, white);
        assert(whole[whole.len() - 2] == word[word.len() - 2]);
        let before = text::words(s).push(front);
        assert(before.drop_last() =~= text::words(s));
        assert(before.last().push(word.last()) =~= word);
        assert(text::words(whole) == text::words(s).push(word));
    }
    assert(text::words(whole) == text::words(s).push(word));
    assert(whole.push(white).len() > 0 && whole.push(white).last() == white);
    assert(text::words(whole.push(white)) == text::words(whole));
}

/// Words with single spaces between them are the words of their text.
pub proof fn joined_words_are_words(words: Seq<Seq<char>>)
    requires
        forall|i: int| 0 <= i < words.len() ==> is_word(#[trigger] words[i]),
    ensures
        text::words(text::joined(words, " "@)) == words,
        text::words(text::joined(words, " "@).push(' ')) == words,
        text::compacted(text::joined(words, " "@)) == text::joined(words, " "@),
        text::compacted(text::joined(words, " "@).push(' ')) == text::joined(words, " "@),
    decreases words.len(),
{
    reveal_strlit(" ");
    let none = Seq::<char>::empty();
    if words.len() == 0 {
        assert(words =~= Seq::empty());
        assert(none.push(' ').drop_last() =~= none);
    } else {
        let last = words.last();
        assert(words[words.len() - 1] == last);
        if words.len() == 1 {
            words_follow_white_space(none, last, ' ');
            assert(none + last =~= last);
            assert(text::words(none).push(last) =~= words);
        } else {
            let front = words.drop_last();
            assert forall|i: int| 0 <= i < front.len() implies is_word(#[trigger] front[i]) by {
                assert(front[i] == words[i]);
            }
            joined_words_are_words(front);
            let start = text::joined(front, " "@).push(' ');
            words_follow_white_space(start, last, ' ');
            assert(text::joined(front, " "@) + " "@ + last =~= start + last);
            assert(front.push(last) =~= words);
        }
    }
}

/// How many line feeds a text holds.
pub open spec fn line_feeds(s: Seq<char>) -> nat {
    s.filter(|c: char| c == '\n').len()
}

proof fn pieces_count_line_feeds(s: Seq<char>)
    ensures
        text::split_on(s, '\n').len() == line_feeds(s) + 1,
        text::split_on(s, '\n').last().len() == 0 <==> s.len() == 0 || s.last() == '\n',
    decreases s.len(),
{
    reveal(Seq::filter);
    text::split_on_not_empty(s, '\n');
    if s.len() > 0 {
        pieces_count_line_feeds(s.drop_last());
        text::split_on_not_empty(s.drop_last(), '\n');
    }
}

/// A text has a line for each line feed, and one more where something follows the last.
pub proof fn lines_are_ended_by_line_feeds(s: Seq<char>)
    ensures
        text::lines(s).len() == line_feeds(s) + (if s.len() > 0 && s.last() != '\n' {
            1int
        } else {
            0
        }),
{
    pieces_count_line_feeds(s);
}

/// Lower case keeps the length of a text, and every character but the capital letters of ASCII,
/// which become the small ones.
pub proof fn lower_case_keeps_all_but_capitals(s: Seq<char>, i: int)
    requires
        0 <= i < s.len(),
    ensures
        text::lowered(s).len() == s.len(),
        !('A' <= s[i] <= 'Z') ==> text::lowered(s)[i] == s[i],
        'A' <= s[i] <= 'Z' ==> 'a' <= text::lowered(s)[i] <= 'z' && text::lowered(s)[i] as u32
            - 'a' as u32 == s[i] as u32 - 'A' as u32,
{
}

/// What holds no separator is one piece, and behind a separator it is one piece more.
pub proof fn pieces_come_apart<A>(s: Seq<A>, t: Seq<A>, sep: A)
    requires
        !t.contains(sep),
    ensures
        text::split_on(t, sep) == seq![t],
        text::split_on(s.push(sep) + t, sep) == text::split_on(s, sep).push(t),
{
    let none = Seq::<A>::empty();
    text::split_on_of_concat(none, t, sep);
    assert(none + t =~= t);
    assert(text::split_on(none, sep) =~= seq![none]);
    assert(seq![none].drop_last().push(none + t) =~= seq![t]);
    text::split_on_of_concat(s.push(sep), t, sep);
    assert(s.push(sep).drop_last() =~= s);
    let pieces = text::split_on(s, sep).push(none);
    assert(text::split_on(s.push(sep), sep) == pieces);
    assert(pieces.drop_last() =~= text::split_on(s, sep));
    assert(none + t =~= t);
}

/// The first piece is what stands before the first separator, or all.
pub proof fn first_pieces_end_at_a_separator<A>(s: Seq<A>, sep: A)
    ensures
        ({
            let first = text::split_on(s, sep)[0];
            &&& text::split_on(s, sep).len() > 0
            &&& first.len() <= s.len()
            &&& s.take(first.len() as int) == first
            &&& !first.contains(sep)
            &&& first.len() < s.len() ==> s[first.len() as int] == sep
            &&& text::split_on(s, sep).len() > 1 <==> first.len() < s.len()
        }),
    decreases s.len(),
{
    text::pieces_hold_no_separator(s, sep);
    text::split_on_not_empty(s, sep);
    if s.len() > 0 {
        let front = s.drop_last();
        first_pieces_end_at_a_separator(front, sep);
        let before = text::split_on(front, sep);
        let first = text::split_on(s, sep)[0];
        if before.len() > 1 {
            assert(first == before[0]);
            assert(s.take(first.len() as int) =~= front.take(first.len() as int));
        } else if s.last() == sep {
            assert(first == before[0]);
            assert(s.take(first.len() as int) =~= front.take(first.len() as int));
        } else {
            assert(first == before[0].push(s.last()));
            assert(front.take(front.len() as int) =~= front);
            assert(s.take(s.len() as int) =~= s);
            assert(front.push(s.last()) =~= s);
        }
    } else {
        assert(s.take(0) =~= s);
    }
}

/// Where a separator stands, the text before it has the pieces before, and the text behind it the
/// pieces behind.
pub proof fn pieces_of_both_sides<A>(s: Seq<A>, t: Seq<A>, sep: A)
    ensures
        text::split_on(s.push(sep) + t, sep) == text::split_on(s, sep) + text::split_on(t, sep),
    decreases t.len(),
{
    let start = s.push(sep);
    if t.len() == 0 {
        assert(start + t =~= start);
        assert(start.drop_last() =~= s);
        assert(text::split_on(t, sep) =~= seq![Seq::empty()]);
        assert(text::split_on(s, sep).push(Seq::empty()) =~= text::split_on(s, sep) + seq![
            Seq::empty(),
        ]);
    } else {
        let front = t.drop_last();
        pieces_of_both_sides(s, front, sep);
        text::split_on_not_empty(front, sep);
        assert((start + t).drop_last() =~= start + front);
        let a = text::split_on(s, sep);
        let b = text::split_on(front, sep);
        if t.last() == sep {
            assert((a + b).push(Seq::empty()) =~= a + b.push(Seq::empty()));
        } else {
            let grown = b.last().push(t.last());
            assert((a + b).last() == b.last());
            assert((a + b).drop_last().push(grown) =~= a + b.drop_last().push(grown));
        }
    }
}

} // verus!
