//! Text as a sequence of characters: comparison, trimming, splitting, numbers.

pub mod laws;

use vstd::prelude::*;

verus! {

/// `String::push` of std appends the given character to the end of the string.
pub assume_specification[ String::push ](s: &mut String, c: char)
    ensures
        final(s)@ == old(s)@.push(c),
;

/// What `std::string::FromUtf8Error` says of bytes that are not valid UTF-8.
pub uninterp spec fn utf8_fault(bytes: Seq<u8>) -> Seq<char>;

/// `String::from_utf8` of std: the text that the bytes encode, or, where they are not
/// valid UTF-8, the error's own words, which are left open.
#[verifier::external_body]
pub(crate) fn decode(bytes: &[u8]) -> (out: Result<String, String>)
    ensures
        out is Ok <==> vstd::utf8::valid_utf8(bytes@),
        out matches Ok(s) ==> s@ == vstd::utf8::decode_utf8(bytes@),
        out matches Err(e) ==> e@ == utf8_fault(bytes@),
{
    String::from_utf8(bytes.to_vec()).map_err(|e| e.to_string())
}

/// The text that `String::from_utf8_lossy` of std makes of bytes.
pub uninterp spec fn utf8_lossy(bytes: Seq<u8>) -> Seq<char>;

/// `String::from_utf8_lossy` of std: the text that the bytes encode, with replacement
/// characters where they are not valid UTF-8. How many of those stand for a faulty
/// stretch is left open.
#[verifier::external_body]
pub(crate) fn decode_lossy(bytes: &[u8]) -> (out: String)
    ensures
        out@ == utf8_lossy(bytes@),
        vstd::utf8::valid_utf8(bytes@) ==> out@ == vstd::utf8::decode_utf8(bytes@),
{
    String::from_utf8_lossy(bytes).into_owned()
}

/// The characters of `s`.
pub fn chars_of(s: &str) -> (out: Vec<char>)
    ensures
        out@ == s@,
{
    let mut out: Vec<char> = Vec::new();
    for c in it: s.chars()
        invariant
            out@ == it.seq().take(it.index() as int),
            it.seq() == s@,
    {
        out.push(c);
        assert(out@ =~= it.seq().take(it.index() + 1));
    }
    assert(s@.take(s@.len() as int) =~= s@);
    out
}

/// The string that holds exactly `chars`.
pub fn string_of(chars: &[char]) -> (out: String)
    ensures
        out@ == chars@,
{
    let mut out = String::new();
    let mut i: usize = 0;
    while i < chars.len()
        invariant
            i <= chars.len(),
            out@ == chars@.take(i as int),
        decreases chars.len() - i,
    {
        out.push(chars[i]);
        i = i + 1;
        assert(out@ =~= chars@.take(i as int));
    }
    assert(chars@.take(i as int) =~= chars@);
    out
}

/// Whether two character slices hold the same characters.
pub fn same_chars(a: &[char], b: &[char]) -> (r: bool)
    ensures
        r == (a@ == b@),
{
    if a.len() != b.len() {
        return false;
    }
    let mut i: usize = 0;
    while i < a.len()
        invariant
            i <= a.len(),
            a.len() == b.len(),
            forall|j: int| 0 <= j < i ==> a@[j] == b@[j],
        decreases a.len() - i,
    {
        if a[i] != b[i] {
            return false;
        }
        i = i + 1;
    }
    assert(a@ =~= b@);
    true
}

/// Whether two texts are equal.
pub fn same(a: &str, b: &str) -> (r: bool)
    ensures
        r == (a@ == b@),
{
    let x = a.as_bytes();
    let y = b.as_bytes();
    if x.len() != y.len() {
        return false;
    }
    let mut i: usize = 0;
    while i < x.len()
        invariant
            i <= x.len(),
            x.len() == y.len(),
            x@ == vstd::utf8::encode_utf8(a@),
            y@ == vstd::utf8::encode_utf8(b@),
            forall|j: int| 0 <= j < i ==> x@[j] == y@[j],
        decreases x.len() - i,
    {
        if x[i] != y[i] {
            return false;
        }
        i = i + 1;
    }
    proof {
        assert(x@ =~= y@);
        vstd::utf8::encode_utf8_decode_utf8(a@);
        vstd::utf8::encode_utf8_decode_utf8(b@);
    }
    true
}

/// Lexicographic order of texts by code point, a proper prefix coming first.
pub open spec fn text_lt(a: Seq<char>, b: Seq<char>) -> bool
    decreases b.len(),
{
    if b.len() == 0 {
        false
    } else if a.len() == 0 {
        true
    } else if a[0] != b[0] {
        (a[0] as u32) < (b[0] as u32)
    } else {
        text_lt(a.drop_first(), b.drop_first())
    }
}

/// No text comes before itself.
pub proof fn text_lt_irreflexive(a: Seq<char>)
    ensures
        !text_lt(a, a),
    decreases a.len(),
{
    if a.len() > 0 {
        text_lt_irreflexive(a.drop_first());
    }
}

/// The order of texts is transitive.
pub proof fn text_lt_transitive(a: Seq<char>, b: Seq<char>, c: Seq<char>)
    requires
        text_lt(a, b),
        text_lt(b, c),
    ensures
        text_lt(a, c),
    decreases a.len(),
{
    if a.len() > 0 && a[0] == b[0] && b[0] == c[0] {
        text_lt_transitive(a.drop_first(), b.drop_first(), c.drop_first());
    }
}

/// Of two different texts one comes before the other.
pub proof fn text_lt_total(a: Seq<char>, b: Seq<char>)
    ensures
        text_lt(a, b) || text_lt(b, a) || a == b,
    decreases a.len(),
{
    if a.len() > 0 && b.len() > 0 {
        vstd::utf8::char_u32_cast(a[0], a[0] as u32);
        vstd::utf8::char_u32_cast(b[0], b[0] as u32);
    }
    if a.len() == 0 && b.len() == 0 {
        assert(a =~= b);
    } else if a.len() > 0 && b.len() > 0 && a[0] == b[0] {
        text_lt_total(a.drop_first(), b.drop_first());
        if a.drop_first() == b.drop_first() {
            assert(a =~= seq![a[0]] + a.drop_first());
            assert(b =~= seq![b[0]] + b.drop_first());
        }
    }
}

/// A common prefix does not take part in the order.
pub proof fn text_lt_skip_prefix(a: Seq<char>, b: Seq<char>, n: int)
    requires
        0 <= n <= a.len(),
        n <= b.len(),
        forall|j: int| 0 <= j < n ==> a[j] == b[j],
    ensures
        text_lt(a, b) == text_lt(a.skip(n), b.skip(n)),
    decreases n,
{
    if n > 0 {
        text_lt_skip_prefix(a.drop_first(), b.drop_first(), n - 1);
        assert(a.drop_first().skip(n - 1) =~= a.skip(n));
        assert(b.drop_first().skip(n - 1) =~= b.skip(n));
    } else {
        assert(a.skip(0) =~= a);
        assert(b.skip(0) =~= b);
    }
}

/// Whether `a` comes before `b` in the order of texts.
pub fn precedes(a: &str, b: &str) -> (r: bool)
    ensures
        r == text_lt(a@, b@),
{
    let x = chars_of(a);
    let y = chars_of(b);
    let mut i: usize = 0;
    while i < x.len() && i < y.len()
        invariant
            x@ == a@,
            y@ == b@,
            i <= x.len(),
            i <= y.len(),
            forall|j: int| 0 <= j < i ==> x@[j] == y@[j],
        decreases x.len() - i,
    {
        if x[i] != y[i] {
            proof {
                text_lt_skip_prefix(a@, b@, i as int);
            }
            return (x[i] as u32) < (y[i] as u32);
        }
        i = i + 1;
    }
    proof {
        text_lt_skip_prefix(a@, b@, i as int);
    }
    i < y.len()
}

/// Whether `c` has the Unicode property White_Space.
pub open spec fn is_white(c: char) -> bool {
    let n = c as u32;
    ||| 0x09 <= n <= 0x0d
    ||| n == 0x20
    ||| n == 0x85
    ||| n == 0xa0
    ||| n == 0x1680
    ||| 0x2000 <= n <= 0x200a
    ||| n == 0x2028
    ||| n == 0x2029
    ||| n == 0x202f
    ||| n == 0x205f
    ||| n == 0x3000
}

/// Whether `c` has the Unicode property White_Space.
pub fn is_white_space(c: char) -> (r: bool)
    ensures
        r == is_white(c),
{
    let n: u32 = c as u32;
    (0x09 <= n && n <= 0x0d) || n == 0x20 || n == 0x85 || n == 0xa0 || n == 0x1680 || (0x2000 <= n
        && n <= 0x200a) || n == 0x2028 || n == 0x2029 || n == 0x202f || n == 0x205f || n == 0x3000
}

/// `s` without its leading white space.
pub open spec fn trim_start(s: Seq<char>) -> Seq<char>
    decreases s.len(),
{
    if s.len() > 0 && is_white(s[0]) {
        trim_start(s.drop_first())
    } else {
        s
    }
}

/// `s` without its trailing white space.
pub open spec fn trim_end(s: Seq<char>) -> Seq<char>
    decreases s.len(),
{
    if s.len() > 0 && is_white(s.last()) {
        trim_end(s.drop_last())
    } else {
        s
    }
}

/// `s` without its leading and trailing white space.
pub open spec fn trimmed(s: Seq<char>) -> Seq<char> {
    trim_end(trim_start(s))
}

/// Trimming takes away white space from both ends, and nothing else: what is left has none there,
/// and what does not start or end with any stays as it is.
pub proof fn trimming_leaves_what_is_inside(before: Seq<char>, s: Seq<char>, after: Seq<char>)
    requires
        s.len() > 0 ==> !is_white(s[0]) && !is_white(s.last()),
        forall|i: int| 0 <= i < before.len() ==> is_white(#[trigger] before[i]),
        forall|i: int| 0 <= i < after.len() ==> is_white(#[trigger] after[i]),
    ensures
        trimmed(before + s + after) == s,
    decreases before.len() + after.len(),
{
    let whole = before + s + after;
    if before.len() > 0 {
        let rest = before.drop_first();
        assert(whole[0] == before[0]);
        assert(whole.drop_first() =~= rest + s + after);
        assert forall|i: int| 0 <= i < rest.len() implies is_white(#[trigger] rest[i]) by {
            assert(rest[i] == before[i + 1]);
        }
        trimming_leaves_what_is_inside(rest, s, after);
    } else if s.len() == 0 {
        if after.len() > 0 {
            let rest = after.drop_first();
            assert(whole[0] == after[0]);
            assert(whole.drop_first() =~= before + s + rest);
            assert forall|i: int| 0 <= i < rest.len() implies is_white(#[trigger] rest[i]) by {
                assert(rest[i] == after[i + 1]);
            }
            trimming_leaves_what_is_inside(before, s, rest);
        } else {
            assert(whole =~= s);
        }
    } else {
        assert(whole[0] == s[0]);
        assert(whole =~= s + after);
        ends_are_trimmed(s, after);
    }
}

proof fn ends_are_trimmed(s: Seq<char>, after: Seq<char>)
    requires
        s.len() > 0 && !is_white(s.last()),
        forall|i: int| 0 <= i < after.len() ==> is_white(#[trigger] after[i]),
    ensures
        trim_end(s + after) == s,
    decreases after.len(),
{
    if after.len() > 0 {
        let rest = after.drop_last();
        assert((s + after).last() == after[after.len() - 1]);
        assert((s + after).drop_last() =~= s + rest);
        assert forall|i: int| 0 <= i < rest.len() implies is_white(#[trigger] rest[i]) by {
            assert(rest[i] == after[i]);
        }
        ends_are_trimmed(s, rest);
    } else {
        assert(s + after =~= s);
    }
}

/// `s` without its leading and trailing white space.
pub fn trim(s: &str) -> (out: String)
    ensures
        out@ == trimmed(s@),
{
    let chars = chars_of(s);
    let mut start: usize = 0;
    assert(chars@.skip(0) =~= chars@);
    while start < chars.len() && is_white_space(chars[start])
        invariant
            start <= chars.len(),
            trim_start(chars@) == trim_start(chars@.skip(start as int)),
        decreases chars.len() - start,
    {
        assert(chars@.skip(start as int).drop_first() =~= chars@.skip(start + 1));
        start = start + 1;
    }
    let ghost front = chars@.skip(start as int);
    assert(trim_start(chars@) == front);
    let mut end: usize = chars.len();
    assert(front.take(front.len() as int) =~= front);
    while end > start && is_white_space(chars[end - 1])
        invariant
            start <= end <= chars.len(),
            front == chars@.skip(start as int),
            trim_end(front) == trim_end(front.take(end - start)),
        decreases end,
    {
        assert(front.take(end - start).last() == chars@[end - 1]);
        assert(front.take(end - start).drop_last() =~= front.take(end - 1 - start));
        end = end - 1;
    }
    assert(end > start ==> front.take(end - start).last() == chars@[end - 1]);
    assert(front.take(end - start) =~= chars@.subrange(start as int, end as int));
    string_of(vstd::slice::slice_subrange(chars.as_slice(), start, end))
}

/// Whether `part` stands somewhere in `s`.
pub open spec fn holds_part(s: Seq<char>, part: Seq<char>) -> bool {
    exists|i: int|
        0 <= i <= s.len() - part.len() && #[trigger] s.subrange(i, i + part.len()) == part
}

/// Whether `part` stands somewhere in `s`.
pub fn contains(s: &str, part: &str) -> (r: bool)
    ensures
        r == holds_part(s@, part@),
{
    let x = chars_of(s);
    let y = chars_of(part);
    if y.len() == 0 {
        assert(s@.subrange(0int, 0int + part@.len()) =~= part@);
        return true;
    }
    if y.len() > x.len() {
        return false;
    }
    let mut i: usize = 0;
    let last: usize = x.len() - y.len();
    while i <= last
        invariant
            x@ == s@,
            y@ == part@,
            y.len() > 0,
            last == x.len() - y.len(),
            i <= last + 1,
            forall|j: int| 0 <= j < i ==> #[trigger] s@.subrange(j, j + part@.len()) != part@,
        decreases last + 1 - i,
    {
        let here = vstd::slice::slice_subrange(x.as_slice(), i, i + y.len());
        assert(here@ == s@.subrange(i as int, i + part@.len()));
        if same_chars(here, y.as_slice()) {
            return true;
        }
        i = i + 1;
    }
    false
}

/// The pieces of `s` between the elements equal to `sep`: one more than there are
/// separators.
pub open spec fn split_on<A>(s: Seq<A>, sep: A) -> Seq<Seq<A>>
    decreases s.len(),
{
    if s.len() == 0 {
        seq![Seq::<A>::empty()]
    } else {
        let front = split_on(s.drop_last(), sep);
        if s.last() == sep {
            front.push(Seq::<A>::empty())
        } else {
            front.drop_last().push(front.last().push(s.last()))
        }
    }
}

/// There is always a piece.
pub proof fn split_on_not_empty<A>(s: Seq<A>, sep: A)
    ensures
        split_on(s, sep).len() > 0,
    decreases s.len(),
{
    if s.len() > 0 {
        split_on_not_empty(s.drop_last(), sep);
    }
}

/// What follows without a separator belongs to the last piece.
pub proof fn split_on_of_concat<A>(s: Seq<A>, t: Seq<A>, sep: A)
    requires
        !t.contains(sep),
    ensures
        split_on(s + t, sep) == split_on(s, sep).drop_last().push(split_on(s, sep).last() + t),
    decreases t.len(),
{
    split_on_not_empty(s, sep);
    let pieces = split_on(s, sep);
    if t.len() == 0 {
        assert(s + t =~= s);
        assert(pieces.last() + t =~= pieces.last());
        assert(pieces.drop_last().push(pieces.last()) =~= pieces);
    } else {
        let front = t.drop_last();
        assert forall|i: int| 0 <= i < front.len() implies front[i] != sep by {
            assert(t[i] == front[i]);
        }
        assert(t.contains(t.last()));
        split_on_of_concat(s, front, sep);
        assert((s + t).drop_last() =~= s + front);
        assert((s + t).last() == t.last());
        let before = split_on(s + front, sep);
        assert(before.drop_last() =~= pieces.drop_last());
        assert(before.last().push(t.last()) =~= pieces.last() + t);
    }
}

/// No piece holds the separator.
pub proof fn pieces_hold_no_separator<A>(s: Seq<A>, sep: A)
    ensures
        forall|i: int| 0 <= i < split_on(s, sep).len() ==> !(#[trigger] split_on(s, sep)[i]).contains(
            sep,
        ),
    decreases s.len(),
{
    if s.len() > 0 {
        let front = split_on(s.drop_last(), sep);
        split_on_not_empty(s.drop_last(), sep);
        pieces_hold_no_separator(s.drop_last(), sep);
        if s.last() != sep {
            let grown = front.last().push(s.last());
            assert(!front[front.len() - 1].contains(sep));
            assert forall|k: int| 0 <= k < grown.len() implies grown[k] != sep by {
                if k < front.last().len() {
                    assert(front.last()[k] == grown[k]);
                }
            }
        }
    }
}

/// The pieces of `bytes` between the bytes equal to `sep`.
pub fn split_bytes(bytes: &[u8], sep: u8) -> (out: Vec<Vec<u8>>)
    ensures
        out.deep_view() == split_on(bytes@, sep),
        out.len() > 0,
{
    let mut out: Vec<Vec<u8>> = Vec::new();
    let mut piece: Vec<u8> = Vec::new();
    let mut i: usize = 0;
    while i < bytes.len()
        invariant
            i <= bytes.len(),
            out.deep_view().push(piece@) == split_on(bytes@.take(i as int), sep),
        decreases bytes.len() - i,
    {
        let ghost before = bytes@.take(i as int);
        let ghost pieces = out.deep_view();
        assert(bytes@.take(i + 1).drop_last() =~= before);
        assert(split_on(before, sep).drop_last() =~= pieces);
        if bytes[i] == sep {
            assert(piece.deep_view() =~= piece@);
            out.push(piece);
            assert(out.deep_view() =~= split_on(before, sep));
            piece = Vec::new();
        } else {
            piece.push(bytes[i]);
        }
        i = i + 1;
    }
    assert(bytes@.take(i as int) =~= bytes@);
    let ghost pieces = out.deep_view();
    let ghost last = piece@;
    assert(piece.deep_view() =~= piece@);
    out.push(piece);
    assert(out.deep_view() =~= pieces.push(last));
    out
}

/// The pieces of `s` between the characters equal to `sep`.
pub fn split_text(s: &str, sep: char) -> (out: Vec<String>)
    ensures
        out.deep_view() == split_on(s@, sep),
        out.len() > 0,
{
    let chars = chars_of(s);
    let mut out: Vec<String> = Vec::new();
    let mut piece = String::new();
    let mut i: usize = 0;
    while i < chars.len()
        invariant
            i <= chars.len(),
            out.deep_view().push(piece@) == split_on(chars@.take(i as int), sep),
        decreases chars.len() - i,
    {
        let ghost before = chars@.take(i as int);
        let ghost pieces = out.deep_view();
        assert(chars@.take(i + 1).drop_last() =~= before);
        assert(split_on(before, sep).drop_last() =~= pieces);
        if chars[i] == sep {
            out.push(piece);
            assert(out.deep_view() =~= split_on(before, sep));
            piece = String::new();
        } else {
            piece.push(chars[i]);
        }
        i = i + 1;
    }
    assert(chars@.take(i as int) =~= chars@);
    let ghost pieces = out.deep_view();
    let ghost last = piece@;
    out.push(piece);
    assert(out.deep_view() =~= pieces.push(last));
    out
}

/// A line without the carriage return that ends it.
pub open spec fn without_return(line: Seq<char>) -> Seq<char> {
    if line.len() > 0 && line.last() == '\r' {
        line.drop_last()
    } else {
        line
    }
}

/// The lines of `s`: each ends with a line feed, before which a carriage return may
/// stand; behind the last line the line feed may be missing.
pub open spec fn lines(s: Seq<char>) -> Seq<Seq<char>> {
    let pieces = split_on(s, '\n');
    let ended = Seq::new((pieces.len() - 1) as nat, |i: int| without_return(pieces[i]));
    if pieces.last().len() == 0 {
        ended
    } else {
        ended.push(pieces.last())
    }
}

/// The lines of `s`, without their line ends.
pub fn lines_of(s: &str) -> (out: Vec<String>)
    ensures
        out.deep_view() == lines(s@),
{
    let pieces = split_text(s, '\n');
    let ghost all = pieces.deep_view();
    let last: usize = pieces.len() - 1;
    let mut out: Vec<String> = Vec::new();
    let mut i: usize = 0;
    while i < last
        invariant
            i <= last,
            last == pieces.len() - 1,
            all == pieces.deep_view(),
            out.deep_view() == Seq::new(i as nat, |k: int| without_return(all[k])),
        decreases last - i,
    {
        let ghost before = out.deep_view();
        let chars = chars_of(pieces[i].as_str());
        let mut end: usize = chars.len();
        if end > 0 && chars[end - 1] == '\r' {
            end = end - 1;
        }
        let line = string_of(vstd::slice::slice_subrange(chars.as_slice(), 0, end));
        assert(line@ =~= without_return(all[i as int]));
        out.push(line);
        assert(out.deep_view() =~= before.push(without_return(all[i as int])));
        i = i + 1;
        assert(out.deep_view() =~= Seq::new(i as nat, |k: int| without_return(all[k])));
    }
    if !pieces[last].as_str().is_empty() {
        let ghost before = out.deep_view();
        out.push(pieces[last].clone());
        assert(out.deep_view() =~= before.push(all.last()));
    }
    out
}

/// The maximal runs of non-white characters in `s`.
pub open spec fn words(s: Seq<char>) -> Seq<Seq<char>>
    decreases s.len(),
{
    if s.len() == 0 {
        Seq::empty()
    } else {
        let front = words(s.drop_last());
        if is_white(s.last()) {
            front
        } else if s.len() == 1 || is_white(s[s.len() - 2]) {
            front.push(seq![s.last()])
        } else {
            front.drop_last().push(front.last().push(s.last()))
        }
    }
}

/// The words of `s`, which white space separates.
pub fn words_of(s: &str) -> (out: Vec<String>)
    ensures
        out.deep_view() == words(s@),
{
    let chars = chars_of(s);
    let mut out: Vec<String> = Vec::new();
    let mut word = String::new();
    let mut in_word = false;
    let mut i: usize = 0;
    assert(out.deep_view() =~= words(chars@.take(0)));
    while i < chars.len()
        invariant
            i <= chars.len(),
            in_word == (i > 0 && !is_white(chars@[i - 1])),
            in_word ==> out.deep_view().push(word@) == words(chars@.take(i as int)),
            !in_word ==> out.deep_view() == words(chars@.take(i as int)) && word@.len() == 0,
        decreases chars.len() - i,
    {
        let c: char = chars[i];
        let ghost now = chars@.take(i + 1);
        let ghost before = out.deep_view();
        proof {
            assert(now.drop_last() =~= chars@.take(i as int));
            assert(now.last() == c);
            assert(i > 0 ==> now[now.len() - 2] == chars@[i - 1]);
            if in_word {
                assert(words(chars@.take(i as int)).drop_last() =~= before);
            }
        }
        if is_white_space(c) {
            if in_word {
                let ghost done = word@;
                out.push(word);
                assert(out.deep_view() =~= before.push(done));
                word = String::new();
            }
            in_word = false;
        } else {
            word.push(c);
            assert(!in_word ==> word@ =~= seq![c]);
            in_word = true;
        }
        i = i + 1;
    }
    assert(chars@.take(i as int) =~= chars@);
    if in_word {
        let ghost before = out.deep_view();
        let ghost done = word@;
        out.push(word);
        assert(out.deep_view() =~= before.push(done));
    }
    out
}

/// How many words, separated by white space, `s` has.
pub fn count_words(s: &str) -> (n: usize)
    ensures
        n == words(s@).len(),
{
    let words = words_of(s);
    words.len()
}

/// `s` without the leading characters equal to `c`.
pub open spec fn strip_start(s: Seq<char>, c: char) -> Seq<char>
    decreases s.len(),
{
    if s.len() > 0 && s[0] == c {
        strip_start(s.drop_first(), c)
    } else {
        s
    }
}

/// `s` without the trailing characters equal to `c`.
pub open spec fn strip_end(s: Seq<char>, c: char) -> Seq<char>
    decreases s.len(),
{
    if s.len() > 0 && s.last() == c {
        strip_end(s.drop_last(), c)
    } else {
        s
    }
}

/// `s` without the leading characters equal to `c`.
pub fn trim_start_char(s: &str, c: char) -> (out: String)
    ensures
        out@ == strip_start(s@, c),
{
    let chars = chars_of(s);
    let mut start: usize = 0;
    assert(chars@.skip(0) =~= chars@);
    while start < chars.len() && chars[start] == c
        invariant
            start <= chars.len(),
            strip_start(chars@, c) == strip_start(chars@.skip(start as int), c),
        decreases chars.len() - start,
    {
        assert(chars@.skip(start as int).drop_first() =~= chars@.skip(start + 1));
        start = start + 1;
    }
    assert(chars@.subrange(start as int, chars@.len() as int) =~= chars@.skip(start as int));
    string_of(vstd::slice::slice_subrange(chars.as_slice(), start, chars.len()))
}

/// `s` without the trailing characters equal to `c`.
pub fn trim_end_char(s: &str, c: char) -> (out: String)
    ensures
        out@ == strip_end(s@, c),
{
    let chars = chars_of(s);
    let mut end: usize = chars.len();
    assert(chars@.take(end as int) =~= chars@);
    while end > 0 && chars[end - 1] == c
        invariant
            end <= chars.len(),
            strip_end(chars@, c) == strip_end(chars@.take(end as int), c),
        decreases end,
    {
        assert(chars@.take(end as int).last() == chars@[end - 1]);
        assert(chars@.take(end as int).drop_last() =~= chars@.take(end - 1));
        end = end - 1;
    }
    assert(end > 0 ==> chars@.take(end as int).last() == chars@[end - 1]);
    assert(chars@.subrange(0, end as int) =~= chars@.take(end as int));
    string_of(vstd::slice::slice_subrange(chars.as_slice(), 0, end))
}

/// `s` without its trailing white space.
pub fn trim_end_white(s: &str) -> (out: String)
    ensures
        out@ == trim_end(s@),
{
    let chars = chars_of(s);
    let mut end: usize = chars.len();
    assert(chars@.take(end as int) =~= chars@);
    while end > 0 && is_white_space(chars[end - 1])
        invariant
            end <= chars.len(),
            trim_end(chars@) == trim_end(chars@.take(end as int)),
        decreases end,
    {
        assert(chars@.take(end as int).last() == chars@[end - 1]);
        assert(chars@.take(end as int).drop_last() =~= chars@.take(end - 1));
        end = end - 1;
    }
    assert(end > 0 ==> chars@.take(end as int).last() == chars@[end - 1]);
    assert(chars@.subrange(0, end as int) =~= chars@.take(end as int));
    string_of(vstd::slice::slice_subrange(chars.as_slice(), 0, end))
}

/// `s` without `prefix`, where it begins with it.
pub open spec fn without_prefix(s: Seq<char>, prefix: Seq<char>) -> Option<Seq<char>> {
    if begins_with(s, prefix) {
        Some(s.skip(prefix.len() as int))
    } else {
        None
    }
}

/// `s` without `suffix`, where it ends with it.
pub open spec fn without_suffix(s: Seq<char>, suffix: Seq<char>) -> Option<Seq<char>> {
    if finishes_with(s, suffix) {
        Some(s.take(s.len() - suffix.len()))
    } else {
        None
    }
}

/// `s` without `prefix`, where it begins with it.
pub fn strip_prefix(s: &str, prefix: &str) -> (out: Option<String>)
    ensures
        out.deep_view() == without_prefix(s@, prefix@),
{
    if !starts_with(s, prefix) {
        return None;
    }
    let x = chars_of(s);
    let n: usize = prefix.unicode_len();
    let rest = vstd::slice::slice_subrange(x.as_slice(), n, x.len());
    assert(rest@ =~= s@.skip(n as int));
    Some(string_of(rest))
}

/// `s` without `suffix`, where it ends with it.
pub fn strip_suffix(s: &str, suffix: &str) -> (out: Option<String>)
    ensures
        out.deep_view() == without_suffix(s@, suffix@),
{
    if !ends_with(s, suffix) {
        return None;
    }
    let x = chars_of(s);
    let n: usize = suffix.unicode_len();
    let rest = vstd::slice::slice_subrange(x.as_slice(), 0, x.len() - n);
    assert(rest@ =~= s@.take(s@.len() - n));
    Some(string_of(rest))
}

/// The words of `s` with one space between them.
pub open spec fn compacted(s: Seq<char>) -> Seq<char> {
    joined(words(s), " "@)
}

/// The words of `s` with one space between them.
pub fn compact(s: &str) -> (out: String)
    ensures
        out@ == compacted(s@),
{
    let words = words_of(s);
    join(words.as_slice(), " ")
}

/// `s` with every `from` replaced by `to`.
pub open spec fn replaced(s: Seq<char>, from: char, to: char) -> Seq<char> {
    Seq::new(
        s.len(),
        |i: int|
            if s[i] == from {
                to
            } else {
                s[i]
            },
    )
}

/// `s` with every `from` replaced by `to`.
pub fn replace_char(s: &str, from: char, to: char) -> (out: String)
    ensures
        out@ == replaced(s@, from, to),
{
    let chars = chars_of(s);
    let mut out = String::new();
    let mut i: usize = 0;
    while i < chars.len()
        invariant
            i <= chars.len(),
            chars@ == s@,
            out@ == replaced(s@, from, to).take(i as int),
        decreases chars.len() - i,
    {
        let c: char = chars[i];
        out.push(if c == from { to } else { c });
        i = i + 1;
        assert(out@ =~= replaced(s@, from, to).take(i as int));
    }
    assert(replaced(s@, from, to).take(i as int) =~= replaced(s@, from, to));
    out
}

/// Whether `s` begins with `prefix`.
pub open spec fn begins_with<A>(s: Seq<A>, prefix: Seq<A>) -> bool {
    prefix.len() <= s.len() && s.take(prefix.len() as int) == prefix
}

/// Whether `s` ends with `suffix`.
pub open spec fn finishes_with<A>(s: Seq<A>, suffix: Seq<A>) -> bool {
    suffix.len() <= s.len() && s.skip(s.len() - suffix.len()) == suffix
}

/// Whether `s` begins with `prefix`.
pub fn starts_with(s: &str, prefix: &str) -> (r: bool)
    ensures
        r == begins_with(s@, prefix@),
{
    let x = chars_of(s);
    let y = chars_of(prefix);
    if y.len() > x.len() {
        return false;
    }
    let front = vstd::slice::slice_subrange(x.as_slice(), 0, y.len());
    assert(front@ =~= x@.take(y@.len() as int));
    same_chars(front, y.as_slice())
}

/// Whether `s` ends with `suffix`.
pub fn ends_with(s: &str, suffix: &str) -> (r: bool)
    ensures
        r == finishes_with(s@, suffix@),
{
    let x = chars_of(s);
    let y = chars_of(suffix);
    if y.len() > x.len() {
        return false;
    }
    let back = vstd::slice::slice_subrange(x.as_slice(), x.len() - y.len(), x.len());
    assert(back@ =~= x@.skip(x@.len() - y@.len()));
    same_chars(back, y.as_slice())
}

/// `c` in lower case where it is an ASCII letter.
pub open spec fn lower(c: char) -> char {
    if 'A' <= c <= 'Z' {
        ((c as u32) + 32) as char
    } else {
        c
    }
}

/// `s` with its ASCII letters in lower case.
pub open spec fn lowered(s: Seq<char>) -> Seq<char> {
    Seq::new(s.len(), |i: int| lower(s[i]))
}

/// `s` with its ASCII letters in lower case.
pub fn to_lower(s: &str) -> (out: String)
    ensures
        out@ == lowered(s@),
{
    let chars = chars_of(s);
    let mut out = String::new();
    let mut i: usize = 0;
    while i < chars.len()
        invariant
            i <= chars.len(),
            chars@ == s@,
            out@ == lowered(s@).take(i as int),
        decreases chars.len() - i,
    {
        let c: char = chars[i];
        if 'A' <= c && c <= 'Z' {
            out.push(((c as u8) + 32) as char);
        } else {
            out.push(c);
        }
        i = i + 1;
        assert(out@ =~= lowered(s@).take(i as int));
    }
    assert(lowered(s@).take(i as int) =~= lowered(s@));
    out
}

/// `n` spaces.
pub open spec fn spaces(n: nat) -> Seq<char> {
    Seq::new(n, |i: int| ' ')
}

/// `s` with spaces behind it up to a width of `width` characters.
pub open spec fn padded(s: Seq<char>, width: nat) -> Seq<char> {
    if s.len() < width {
        s + spaces((width - s.len()) as nat)
    } else {
        s
    }
}

/// Appends `s` with spaces behind it up to a width of `width` characters.
pub fn push_padded(out: &mut String, s: &str, width: usize)
    ensures
        final(out)@ == old(out)@ + padded(s@, width as nat),
{
    let ghost before = out@;
    out.append(s);
    let mut n: usize = s.unicode_len();
    while n < width
        invariant
            s@.len() <= n,
            n <= width || n == s@.len(),
            out@ == before + s@ + spaces((n - s@.len()) as nat),
        decreases width - n,
    {
        out.push(' ');
        n = n + 1;
        assert(out@ =~= before + s@ + spaces((n - s@.len()) as nat));
    }
    assert(out@ =~= before + padded(s@, width as nat));
}

/// The texts one behind the other with `sep` between them.
pub open spec fn joined(parts: Seq<Seq<char>>, sep: Seq<char>) -> Seq<char>
    decreases parts.len(),
{
    if parts.len() == 0 {
        Seq::empty()
    } else if parts.len() == 1 {
        parts[0]
    } else {
        joined(parts.drop_last(), sep) + sep + parts.last()
    }
}

/// Texts that were joined with a separator which none of them holds are its pieces.
pub proof fn joined_pieces(parts: Seq<Seq<char>>, sep: char)
    requires
        parts.len() > 0,
        forall|i: int| 0 <= i < parts.len() ==> !(#[trigger] parts[i]).contains(sep),
    ensures
        split_on(joined(parts, seq![sep]), sep) == parts,
    decreases parts.len(),
{
    let none = Seq::<char>::empty();
    if parts.len() == 1 {
        split_on_of_concat(none, parts[0], sep);
        assert(none + parts[0] =~= parts[0]);
        assert(split_on(none, sep).drop_last().push(split_on(none, sep).last() + parts[0])
            =~= parts);
    } else {
        let front = parts.drop_last();
        assert forall|i: int| 0 <= i < front.len() implies !(#[trigger] front[i]).contains(sep) by {
            assert(front[i] == parts[i]);
        }
        joined_pieces(front, sep);
        let start = joined(front, seq![sep]);
        let cut = start + seq![sep];
        assert(cut.drop_last() =~= start);
        assert(cut.last() == sep);
        assert(split_on(cut, sep) == front.push(none));
        assert(!parts[parts.len() - 1].contains(sep));
        split_on_of_concat(cut, parts.last(), sep);
        assert(front.push(none).drop_last() =~= front);
        assert(none + parts.last() =~= parts.last());
        assert(front.push(parts.last()) =~= parts);
    }
}

/// The texts one behind the other with `sep` between them.
pub fn join(parts: &[String], sep: &str) -> (out: String)
    ensures
        out@ == joined(parts.deep_view(), sep@),
{
    let ghost all = parts.deep_view();
    let mut out = String::new();
    let mut i: usize = 0;
    while i < parts.len()
        invariant
            i <= parts.len(),
            all == parts.deep_view(),
            out@ == joined(all.take(i as int), sep@),
        decreases parts.len() - i,
    {
        proof {
            assert(all.take(i + 1).drop_last() =~= all.take(i as int));
            assert(all.take(i + 1).last() == parts@[i as int]@);
        }
        if i > 0 {
            out.append(sep);
        }
        out.append(parts[i].as_str());
        i = i + 1;
        assert(out@ =~= joined(all.take(i as int), sep@));
    }
    assert(all.take(i as int) =~= all);
    out
}

/// The index of the last element equal to `x`.
pub open spec fn last_index(s: Seq<char>, x: char) -> Option<int>
    decreases s.len(),
{
    if s.len() == 0 {
        None
    } else if s.last() == x {
        Some(s.len() - 1)
    } else {
        last_index(s.drop_last(), x)
    }
}

/// The index of the last element equal to `x`.
pub fn find_last(chars: &[char], x: char) -> (out: Option<usize>)
    ensures
        match out {
            Some(i) => last_index(chars@, x) == Some(i as int) && i < chars.len(),
            None => last_index(chars@, x) is None,
        },
{
    let mut i: usize = chars.len();
    assert(chars@.take(i as int) =~= chars@);
    while i > 0
        invariant
            i <= chars.len(),
            last_index(chars@, x) == last_index(chars@.take(i as int), x),
        decreases i,
    {
        assert(chars@.take(i as int).last() == chars@[i - 1]);
        assert(chars@.take(i as int).drop_last() =~= chars@.take(i - 1));
        if chars[i - 1] == x {
            return Some(i - 1);
        }
        i = i - 1;
    }
    None
}

/// Where `sep` first stands in `s`, at or behind `i`.
pub open spec fn first_part(s: Seq<char>, sep: Seq<char>, i: int) -> Option<int>
    decreases s.len() + 1 - i,
{
    if i < 0 || i + sep.len() > s.len() {
        None
    } else if s.subrange(i, i + sep.len()) == sep {
        Some(i)
    } else {
        first_part(s, sep, i + 1)
    }
}

/// The pieces of `s` between the places where `sep` stands, looked for from the start.
pub open spec fn split_parts(s: Seq<char>, sep: Seq<char>) -> Seq<Seq<char>>
    decreases s.len(),
{
    match first_part(s, sep, 0) {
        Some(i) => if sep.len() > 0 && 0 <= i && i + sep.len() <= s.len() {
            seq![s.take(i)] + split_parts(s.skip(i + sep.len()), sep)
        } else {
            seq![s]
        },
        None => seq![s],
    }
}

fn find_part(chars: &[char], sep: &[char], start: usize) -> (out: Option<usize>)
    requires
        sep.len() > 0,
    ensures
        match out {
            Some(i) => first_part(chars@, sep@, start as int) == Some(i as int) && start <= i
                && i + sep.len() <= chars.len(),
            None => first_part(chars@, sep@, start as int) is None,
        },
{
    let mut i: usize = start;
    while i <= chars.len() && sep.len() <= chars.len() - i
        invariant
            start <= i,
            sep.len() > 0,
            first_part(chars@, sep@, start as int) == first_part(chars@, sep@, i as int),
        decreases chars.len() + 1 - i,
    {
        let end: usize = i + sep.len();
        if same_chars(vstd::slice::slice_subrange(chars, i, end), sep) {
            return Some(i);
        }
        i = i + 1;
    }
    None
}

/// The pieces of `s` between the places where `sep` stands, looked for from the start.
pub fn split_str(s: &str, sep: &str) -> (out: Vec<String>)
    requires
        sep@.len() > 0,
    ensures
        out.deep_view() == split_parts(s@, sep@),
{
    let chars = chars_of(s);
    let by = chars_of(sep);
    let mut out: Vec<String> = Vec::new();
    let mut start: usize = 0;
    assert(chars@.skip(0) =~= chars@);
    loop
        invariant
            chars@ == s@,
            by@ == sep@,
            by.len() > 0,
            start <= chars.len(),
            split_parts(s@, sep@) == out.deep_view() + split_parts(
                s@.skip(start as int),
                sep@,
            ),
        ensures
            start <= chars.len(),
            split_parts(s@, sep@) == out.deep_view().push(s@.skip(start as int)),
        decreases chars.len() - start,
    {
        let rest = vstd::slice::slice_subrange(chars.as_slice(), start, chars.len());
        assert(rest@ =~= s@.skip(start as int));
        match find_part(rest, by.as_slice(), 0) {
            None => {
                assert(out.deep_view() + seq![rest@] =~= out.deep_view().push(rest@));
                break;
            },
            Some(i) => {
                let ghost before = out.deep_view();
                let piece = string_of(vstd::slice::slice_subrange(rest, 0, i));
                assert(piece@ =~= rest@.take(i as int));
                out.push(piece);
                assert(out.deep_view() =~= before.push(piece@));
                let ghost next = rest@.skip(i + by@.len());
                assert(before + (seq![piece@] + split_parts(next, sep@)) =~= out.deep_view()
                    + split_parts(next, sep@));
                start = start + i + by.len();
                assert(next =~= s@.skip(start as int));
            },
        }
    }
    let ghost before = out.deep_view();
    let last = string_of(vstd::slice::slice_subrange(chars.as_slice(), start, chars.len()));
    assert(last@ =~= s@.skip(start as int));
    out.push(last);
    assert(out.deep_view() =~= before.push(last@));
    out
}

/// `s` with spaces before it up to a width of `width` characters.
pub open spec fn aligned(s: Seq<char>, width: nat) -> Seq<char> {
    if s.len() < width {
        spaces((width - s.len()) as nat) + s
    } else {
        s
    }
}

/// Appends `s` with spaces before it up to a width of `width` characters.
pub fn push_aligned(out: &mut String, s: &str, width: usize)
    ensures
        final(out)@ == old(out)@ + aligned(s@, width as nat),
{
    let ghost before = out@;
    let length: usize = s.unicode_len();
    let mut n: usize = length;
    assert(before + spaces(0) =~= before);
    while n < width
        invariant
            length == s@.len(),
            length <= n,
            n <= width || n == length,
            out@ == before + spaces((n - length) as nat),
        decreases width - n,
    {
        out.push(' ');
        n = n + 1;
        assert(out@ =~= before + spaces((n - length) as nat));
    }
    out.append(s);
    assert(out@ =~= before + aligned(s@, width as nat));
}

} // verus!
