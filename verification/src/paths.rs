//! Paths in writing, with `/` between their segments, taken apart without looking at a disk.

use vstd::prelude::*;

use crate::table::TextSet;
use crate::text;

pub mod native;

verus! {

/// Whether a segment takes part in a path: empty ones and `.` do not.
pub open spec fn is_segment() -> spec_fn(Seq<char>) -> bool {
    |s: Seq<char>| s.len() > 0 && s != "."@
}

/// The segments of a path.
pub open spec fn segments(path: Seq<char>) -> Seq<Seq<char>> {
    text::split_on(path, '/').filter(is_segment())
}

/// Whether a path starts at the root.
pub open spec fn is_rooted(path: Seq<char>) -> bool {
    path.len() > 0 && path[0] == '/'
}

/// A path as its segments.
#[verifier::ext_equal]
pub struct WrittenPathView {
    pub rooted: bool,
    pub parts: Seq<Seq<char>>,
}

/// The segments of `path` below `root`, where it lies below it.
pub open spec fn parts_below(root: WrittenPathView, path: WrittenPathView) -> Option<
    Seq<Seq<char>>,
> {
    if root.rooted == path.rooted && text::begins_with(path.parts, root.parts) {
        Some(path.parts.skip(root.parts.len() as int))
    } else {
        None
    }
}

/// A path as its segments.
pub struct WrittenPath {
    /// Whether it starts at the root.
    pub rooted: bool,
    /// Its segments, none of which is empty or `.`.
    pub parts: Vec<String>,
}

impl DeepView for WrittenPath {
    type V = WrittenPathView;

    open spec fn deep_view(&self) -> WrittenPathView {
        WrittenPathView { rooted: self.rooted, parts: self.parts.deep_view() }
    }
}

/// Whether a path starts at the root.
pub fn starts_at_root(path: &str) -> (r: bool)
    ensures
        r == is_rooted(path@),
{
    let chars = text::chars_of(path);
    chars.len() > 0 && chars[0] == '/'
}

/// The segments of a path.
pub fn segments_of(path: &str) -> (out: Vec<String>)
    ensures
        out.deep_view() == segments(path@),
{
    let pieces = text::split_text(path, '/');
    let ghost all = pieces.deep_view();
    let mut out: Vec<String> = Vec::new();
    let mut i: usize = 0;
    proof {
        reveal(Seq::filter);
        assert(out.deep_view() =~= all.take(0).filter(is_segment()));
    }
    while i < pieces.len()
        invariant
            i <= pieces.len(),
            all == pieces.deep_view(),
            out.deep_view() == all.take(i as int).filter(is_segment()),
        decreases pieces.len() - i,
    {
        let piece = &pieces[i];
        let ghost before = out.deep_view();
        proof {
            reveal(Seq::filter);
            assert(all.take(i + 1).drop_last() =~= all.take(i as int));
            assert(all.take(i + 1).last() == piece@);
        }
        if !piece.as_str().is_empty() && !text::same(piece.as_str(), ".") {
            out.push(piece.clone());
            assert(out.deep_view() =~= before.push(piece@));
        }
        i = i + 1;
    }
    assert(all.take(i as int) =~= all);
    out
}

/// A path with its segments as they are written.
pub open spec fn written(path: Seq<char>) -> WrittenPathView {
    WrittenPathView { rooted: is_rooted(path), parts: segments(path) }
}

/// A path with its segments as they are written.
pub fn as_written(path: &str) -> (out: WrittenPath)
    ensures
        out.deep_view() == written(path@),
{
    WrittenPath { rooted: starts_at_root(path), parts: segments_of(path) }
}

/// The segments of `path` below `root`, where it lies below it.
pub fn parts_under(root: &WrittenPath, path: &WrittenPath) -> (out: Option<Vec<String>>)
    ensures
        out.deep_view() == parts_below(root.deep_view(), path.deep_view()),
{
    let ghost r = root.deep_view();
    let ghost p = path.deep_view();
    if root.rooted != path.rooted || root.parts.len() > path.parts.len() {
        return None;
    }
    let mut i: usize = 0;
    while i < root.parts.len()
        invariant
            i <= root.parts.len() <= path.parts.len(),
            r == root.deep_view(),
            p == path.deep_view(),
            p.parts.take(i as int) == r.parts.take(i as int),
        decreases root.parts.len() - i,
    {
        assert(r.parts[i as int] == root.parts@[i as int]@);
        assert(p.parts[i as int] == path.parts@[i as int]@);
        if !text::same(root.parts[i].as_str(), path.parts[i].as_str()) {
            assert(p.parts.take(r.parts.len() as int)[i as int] == p.parts[i as int]);
            return None;
        }
        i = i + 1;
        assert(p.parts.take(i as int) =~= r.parts.take(i as int));
    }
    assert(r.parts.take(i as int) =~= r.parts);
    let start: usize = root.parts.len();
    let mut rest: Vec<String> = Vec::new();
    assert(rest.deep_view() =~= p.parts.subrange(start as int, start as int));
    while i < path.parts.len()
        invariant
            start <= i <= path.parts.len(),
            p == path.deep_view(),
            rest.deep_view() == p.parts.subrange(start as int, i as int),
        decreases path.parts.len() - i,
    {
        let ghost before = rest.deep_view();
        rest.push(path.parts[i].clone());
        assert(rest.deep_view() =~= before.push(p.parts[i as int]));
        i = i + 1;
        assert(before.push(p.parts[i - 1]) =~= p.parts.subrange(start as int, i as int));
    }
    assert(rest.deep_view() =~= p.parts.skip(start as int));
    Some(rest)
}

/// The segments of `path` below `root`, with `/` between them, where it lies below it.
pub fn strip_root(root: &WrittenPath, path: &WrittenPath) -> (out: Option<String>)
    ensures
        out is Some <==> parts_below(root.deep_view(), path.deep_view()) is Some,
        out matches Some(s) ==> s@ == text::joined(
            parts_below(root.deep_view(), path.deep_view())->0,
            "/"@,
        ),
{
    match parts_under(root, path) {
        Some(parts) => Some(text::join(parts.as_slice(), "/")),
        None => None,
    }
}

/// Why a requested path names no file of the repository.
#[derive(Debug, Clone, Copy, PartialEq, Eq, Structural)]
pub enum RequestFault {
    /// There is no path, or it names the repository itself.
    EmptyPath,
    /// The path lies outside the repository.
    OutsideRepository,
    /// The path holds a name that is no text.
    UnsupportedEncoding,
}

/// Which candidates were accepted.
#[derive(Debug, Clone, PartialEq, Eq)]
pub enum CandidateSelection {
    /// No candidate.
    Nothing,
    /// Exactly this candidate.
    One(String),
    /// More than one: the first two of them.
    Ambiguous { first: String, second: String },
}

/// What a [`CandidateSelection`] stands for.
#[verifier::ext_equal]
pub enum CandidateSelectionView {
    Nothing,
    One(Seq<char>),
    Ambiguous { first: Seq<char>, second: Seq<char> },
}

impl DeepView for CandidateSelection {
    type V = CandidateSelectionView;

    open spec fn deep_view(&self) -> CandidateSelectionView {
        match self {
            CandidateSelection::Nothing => CandidateSelectionView::Nothing,
            CandidateSelection::One(only) => CandidateSelectionView::One(only@),
            CandidateSelection::Ambiguous { first, second } => CandidateSelectionView::Ambiguous {
                first: first@,
                second: second@,
            },
        }
    }
}

/// The membership in a set of texts.
pub open spec fn member_of(set: Set<Seq<char>>) -> spec_fn(Seq<char>) -> bool {
    |s: Seq<char>| set.contains(s)
}

/// The one accepted candidate, or the first two.
pub open spec fn selection(candidates: Seq<Seq<char>>, accepted: Set<Seq<char>>) -> CandidateSelectionView {
    let matches = candidates.filter(member_of(accepted));
    if matches.len() == 0 {
        CandidateSelectionView::Nothing
    } else if matches.len() == 1 {
        CandidateSelectionView::One(matches[0])
    } else {
        CandidateSelectionView::Ambiguous { first: matches[0], second: matches[1] }
    }
}

/// Selects the one candidate that is accepted.
pub fn select_unique_candidate(candidates: &[String], accepted: &TextSet) -> (
    out: CandidateSelection)
    requires
        accepted.wf(),
    ensures
        out.deep_view() == selection(candidates.deep_view(), accepted@),
{
    let ghost all = candidates.deep_view();
    let ghost keep = member_of(accepted@);
    let mut matches: Vec<String> = Vec::new();
    let mut i: usize = 0;
    proof {
        reveal(Seq::filter);
        assert(matches.deep_view() =~= all.take(0).filter(keep));
    }
    while i < candidates.len()
        invariant
            i <= candidates.len(),
            accepted.wf(),
            all == candidates.deep_view(),
            keep == member_of(accepted@),
            matches.deep_view() == all.take(i as int).filter(keep),
        decreases candidates.len() - i,
    {
        let one = &candidates[i];
        let ghost before = matches.deep_view();
        proof {
            reveal(Seq::filter);
            assert(all.take(i + 1).drop_last() =~= all.take(i as int));
            assert(all.take(i + 1).last() == one@);
        }
        if accepted.contains(one.as_str()) {
            matches.push(one.clone());
            assert(matches.deep_view() =~= before.push(one@));
        }
        i = i + 1;
    }
    assert(all.take(i as int) =~= all);
    assert(matches.len() > 0 ==> matches.deep_view()[0] == matches@[0]@);
    assert(matches.len() > 1 ==> matches.deep_view()[1] == matches@[1]@);
    if matches.len() == 0 {
        CandidateSelection::Nothing
    } else if matches.len() == 1 {
        CandidateSelection::One(matches[0].clone())
    } else {
        CandidateSelection::Ambiguous { first: matches[0].clone(), second: matches[1].clone() }
    }
}

/// Whether a character separates the names of a path where the platform writes `separator`.
pub open spec fn separates(c: char, separator: char) -> bool {
    c == '/' || c == separator
}

/// The path `name` below the directory `base`, where the platform writes `separator` between
/// names; a `name` that starts at the root stands for itself.
pub open spec fn appended(base: Seq<char>, name: Seq<char>, separator: char) -> Seq<char> {
    if base.len() == 0 || (name.len() > 0 && separates(name[0], separator)) {
        name
    } else if separates(base.last(), separator) {
        base + name
    } else {
        base.push(separator) + name
    }
}

/// The path `name` below the directory `base`, where the platform writes `separator` between
/// names; a `name` that starts at the root stands for itself.
pub fn join_path(base: &str, name: &str, separator: char) -> (out: String)
    ensures
        out@ == appended(base@, name@, separator),
{
    let length: usize = base.unicode_len();
    if length == 0 {
        return name.to_string();
    }
    if name.unicode_len() > 0 {
        let first = name.get_char(0);
        if first == '/' || first == separator {
            return name.to_string();
        }
    }
    let mut out = base.to_string();
    let last = base.get_char(length - 1);
    if last != '/' && last != separator {
        out.push(separator);
    }
    out.append(name);
    out
}

/// The segments of a written path below a root hold no `/`.
pub proof fn written_parts_hold_no_separator(root: WrittenPathView, path: Seq<char>)
    ensures
        parts_below(root, written(path)) matches Some(parts) ==> forall|i: int|
            0 <= i < parts.len() ==> !(#[trigger] parts[i]).contains('/'),
{
    let all = text::split_on(path, '/');
    text::pieces_hold_no_separator(path, '/');
    if let Some(parts) = parts_below(root, written(path)) {
        assert forall|i: int| 0 <= i < parts.len() implies !(#[trigger] parts[i]).contains('/') by {
            let part = segments(path)[i + root.parts.len()];
            assert(parts[i] == part);
            assert(segments(path).contains(part));
            all.lemma_filter_contains_rev(is_segment(), part);
            let k = choose|k: int| 0 <= k < all.len() && all[k] == part;
            assert(!all[k].contains('/'));
        }
    }
}

} // verus!
