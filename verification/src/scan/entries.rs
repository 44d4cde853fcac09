//! Which entries of a walk become files of a report.

use vstd::prelude::*;

use crate::order;
use crate::paths;
use crate::scan::classify;
use crate::scan::laws;
use crate::scan::repository;
use crate::scan::repository::{RootLookup, SeenFile, WalkedEntry};
use crate::scan::walk::EntryKind;
use crate::scan::{FileRecord, FileRecordView};
use crate::text;

verus! {

/// Whether texts are names on a path.
pub open spec fn are_names(parts: Seq<Seq<char>>) -> bool {
    forall|i: int|
        0 <= i < parts.len() ==> (#[trigger] parts[i]).len() > 0 && parts[i] != "."@
            && !parts[i].contains('/')
}

/// A path from the root along names.
pub open spec fn from_root(parts: Seq<Seq<char>>) -> Seq<char> {
    seq!['/'] + text::joined(parts, "/"@)
}

proof fn names_are_segments(parts: Seq<Seq<char>>)
    requires
        are_names(parts),
    ensures
        parts.filter(paths::is_segment()) == parts,
    decreases parts.len(),
{
    reveal(Seq::filter);
    if parts.len() > 0 {
        let front = parts.drop_last();
        assert(parts[parts.len() - 1] == parts.last());
        assert forall|i: int| 0 <= i < front.len() implies (#[trigger] front[i]).len() > 0
            && front[i] != "."@ && !front[i].contains('/') by {
            assert(front[i] == parts[i]);
        }
        names_are_segments(front);
        assert(front.push(parts.last()) =~= parts);
    } else {
        assert(parts.filter(paths::is_segment()) =~= parts);
    }
}

proof fn paths_have_their_names(parts: Seq<Seq<char>>)
    requires
        parts.len() > 0,
        are_names(parts),
    ensures
        paths::written(from_root(parts)).rooted,
        paths::written(from_root(parts)).parts == parts,
{
    reveal_strlit("/");
    assert("/"@ =~= seq!['/']);
    let none = Seq::<char>::empty();
    let rest = text::joined(parts, "/"@);
    let keep = paths::is_segment();
    text::joined_pieces(parts, '/');
    text::laws::pieces_of_both_sides(none, rest, '/');
    assert(none.push('/') + rest =~= from_root(parts));
    assert(from_root(parts)[0] == '/');
    let first = text::split_on(none, '/');
    assert(first =~= seq![none]);
    Seq::filter_distributes_over_add(first, parts, keep);
    names_are_segments(parts);
    assert(first.filter(keep) =~= Seq::empty()) by {
        reveal(Seq::filter);
        assert(first.drop_last() =~= Seq::empty());
        assert(first.drop_last().filter(keep) =~= Seq::empty());
    }
    assert(Seq::<Seq<char>>::empty() + parts =~= parts);
}

/// Whether an entry is one of a file: it is one, or a link that is not known to lead to something
/// else.
pub open spec fn is_file(kind: EntryKind) -> bool {
    match kind {
        EntryKind::File => true,
        EntryKind::Symlink { target_is_file: Some(is_file) } => is_file,
        EntryKind::Symlink { target_is_file: None } => true,
        _ => false,
    }
}

/// Whether names lead to what belongs to Git or, at the top, to the analysis.
pub open spec fn are_internal(parts: Seq<Seq<char>>) -> bool {
    parts.contains(".git"@) || (parts.len() > 0 && parts[0] == ".hotpath"@)
}

proof fn internal_names(parts: Seq<Seq<char>>)
    ensures
        repository::are_internal(parts) <==> are_internal(parts),
{
    if parts.contains(".git"@) {
        let i = choose|i: int| 0 <= i < parts.len() && parts[i] == ".git"@;
        assert(parts[i] == ".git"@);
    }
    if parts.len() > 0 && parts[0] == ".hotpath"@ {
        assert(parts[0] == ".hotpath"@);
    }
}

proof fn entries_are_recorded(
    root: Seq<char>,
    entries: Seq<WalkedEntry>,
    i: int,
    file: FileRecordView,
)
    requires
        0 <= i < entries.len(),
        repository::all_files(root, entries) is Ok,
        repository::file_of(root, entries[i]) matches Ok(Some(one)) && one == file,
    ensures
        (repository::all_files(root, entries)->Ok_0).contains(file),
    decreases entries.len(),
{
    let front = entries.drop_last();
    let all = repository::all_files(root, entries)->Ok_0;
    let before = repository::all_files(root, front)->Ok_0;
    if i < entries.len() - 1 {
        assert(front[i] == entries[i]);
        entries_are_recorded(root, front, i, file);
        let k = choose|k: int| 0 <= k < before.len() && before[k] == file;
        assert(all[k] == file);
    } else {
        assert(all[all.len() - 1] == file);
    }
}

/// A file below the scanned directory is reported by its path below it, with its size, unless it
/// belongs to Git or to the analysis.
pub proof fn files_below_the_root_are_reported(
    requested: Seq<char>,
    lookup: RootLookup,
    entries: Seq<WalkedEntry>,
    i: int,
    seen: SeenFile,
    above: Seq<Seq<char>>,
    below: Seq<Seq<char>>,
) -> (k: int)
    requires
        repository::scanned(requested, lookup, entries) is Ok,
        above.len() > 0,
        below.len() > 0,
        are_names(above),
        are_names(below),
        lookup matches RootLookup::Directory { root } && root@ == from_root(above),
        0 <= i < entries.len(),
        entries[i] matches WalkedEntry::Entry { path, kind, seen: there, .. } && path@ == from_root(
            above + below,
        ) && is_file(kind) && there == Some(seen),
        !are_internal(below),
    ensures
        ({
            let files = (repository::scanned(requested, lookup, entries)->Ok_0).files;
            &&& 0 <= k < files.len()
            &&& files[k].path == text::joined(below, "/"@)
            &&& files[k].byte_size == laws::seen_size(seen.observation)
            &&& files[k].is_symlink == seen.is_symlink
        }),
{
    let all = above + below;
    let root = from_root(above);
    assert forall|l: int| 0 <= l < all.len() implies (#[trigger] all[l]).len() > 0 && all[l] != "."@
        && !all[l].contains('/') by {
        if l < above.len() {
            assert(all[l] == above[l]);
        } else {
            assert(all[l] == below[l - above.len()]);
        }
    }
    paths_have_their_names(above);
    paths_have_their_names(all);
    assert(all.take(above.len() as int) =~= above);
    assert(all.skip(above.len() as int) =~= below);
    internal_names(below);
    let file = classify::classified(
        text::joined(below, "/"@),
        classify::any_replacement(below),
        seen.is_symlink,
        seen.observation,
    );
    assert(repository::file_of(root, entries[i])->Ok_0 == Some(file));
    entries_are_recorded(root, entries, i, file);
    let found = repository::all_files(root, entries)->Ok_0;
    let lt = order::by_key::<FileRecord>();
    order::sorted_by_permutes(found, lt);
    order::contains_by_multiset(found, order::sorted_by(found, lt), file);
    let files = (repository::scanned(requested, lookup, entries)->Ok_0).files;
    choose|k: int| 0 <= k < files.len() && files[k] == file
}

} // verus!
