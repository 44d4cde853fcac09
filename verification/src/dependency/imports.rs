//! Where imports by path lead.

use vstd::prelude::*;

use crate::dependency;
use crate::dependency::laws;
use crate::dependency::{DependencyLanguage, ResolvedDependencyEdgeView};
use crate::parse::ParseReportView;
use crate::text;

verus! {

/// Whether texts are names on a path: not empty, and without `/`.
pub open spec fn are_names(parts: Seq<Seq<char>>) -> bool {
    forall|i: int|
        0 <= i < parts.len() ==> (#[trigger] parts[i]).len() > 0 && !parts[i].contains('/')
}

/// Whether texts are names that go down.
pub open spec fn go_down(names: Seq<Seq<char>>) -> bool {
    are_names(names) && forall|i: int|
        0 <= i < names.len() ==> #[trigger] names[i] != "."@ && names[i] != ".."@
}

/// The steps of a relative import: up so many directories, and down along names.
pub open spec fn steps(ups: nat, names: Seq<Seq<char>>) -> Seq<Seq<char>> {
    (if ups == 0 {
        seq!["."@]
    } else {
        Seq::new(ups, |i: int| ".."@)
    }) + names
}

proof fn nothing_is_left_out(parts: Seq<Seq<char>>)
    requires
        are_names(parts),
    ensures
        parts.filter(dependency::is_not_empty()) == parts,
    decreases parts.len(),
{
    reveal(Seq::filter);
    if parts.len() > 0 {
        let front = parts.drop_last();
        assert forall|i: int| 0 <= i < front.len() implies (#[trigger] front[i]).len() > 0
            && !front[i].contains('/') by {
            assert(front[i] == parts[i]);
        }
        nothing_is_left_out(front);
        assert(parts[parts.len() - 1] == parts.last());
        assert(front.push(parts.last()) =~= parts);
    } else {
        assert(parts.filter(dependency::is_not_empty()) =~= parts);
    }
}

proof fn directories_have_their_parts(parts: Seq<Seq<char>>)
    requires
        are_names(parts),
    ensures
        text::split_on(text::joined(parts, "/"@), '/').filter(dependency::is_not_empty()) == parts,
{
    reveal_strlit("/");
    assert("/"@ =~= seq!['/']);
    if parts.len() > 0 {
        text::joined_pieces(parts, '/');
        nothing_is_left_out(parts);
    } else {
        let none = Seq::<Seq<char>>::empty();
        let pieces = seq![Seq::<char>::empty()];
        reveal(Seq::filter);
        assert(pieces.drop_last() =~= none);
        assert(none.filter(dependency::is_not_empty()) =~= none);
        assert(parts =~= none);
        assert(text::split_on(Seq::<char>::empty(), '/') =~= pieces);
    }
}

proof fn steps_are_climbed(parts: Seq<Seq<char>>, ups: nat, names: Seq<Seq<char>>)
    requires
        ups <= parts.len(),
        go_down(names),
    ensures
        dependency::climbed(parts, steps(ups, names)) == Some(
            parts.take(parts.len() - ups) + names,
        ),
    decreases names.len(), ups,
{
    reveal_strlit(".");
    reveal_strlit("..");
    let all = steps(ups, names);
    if names.len() > 0 {
        let front = names.drop_last();
        let last = names.last();
        assert(names[names.len() - 1] == last);
        assert forall|i: int| 0 <= i < front.len() implies (#[trigger] front[i]).len() > 0
            && !front[i].contains('/') && front[i] != "."@ && front[i] != ".."@ by {
            assert(front[i] == names[i]);
        }
        steps_are_climbed(parts, ups, front);
        assert(all.drop_last() =~= steps(ups, front));
        assert((parts.take(parts.len() - ups) + front).push(last) =~= parts.take(parts.len() - ups)
            + names);
    } else if ups <= 1 {
        assert(all.drop_last() =~= Seq::empty());
        assert(dependency::climbed(parts, Seq::empty()) == Some(parts));
        assert("."@.len() == 1 && ".."@.len() == 2);
        if ups == 0 {
            assert(all.last() == "."@);
            assert(parts.take(parts.len() as int) + names =~= parts);
        } else {
            assert(all.last() == ".."@);
            assert(parts.take(parts.len() - 1) + names =~= parts.drop_last());
        }
    } else {
        let fewer = (ups - 1) as nat;
        steps_are_climbed(parts, fewer, names);
        assert(all.drop_last() =~= steps(fewer, names));
        assert(all.last() == ".."@);
        assert("."@.len() == 1 && ".."@.len() == 2);
        let reached = parts.take(parts.len() - fewer) + names;
        assert(reached.drop_last() =~= parts.take(parts.len() - ups) + names);
    }
}

proof fn first_parts_come_first(parts: Seq<Seq<char>>, sep: Seq<char>)
    requires
        parts.len() >= 2,
    ensures
        text::joined(parts, sep) == parts[0] + sep + text::joined(parts.skip(1), sep),
    decreases parts.len(),
{
    let rest = parts.skip(1);
    if parts.len() == 2 {
        reveal_with_fuel(text::joined, 2);
        assert(parts.drop_last()[0] == parts[0]);
        assert(rest[0] == parts.last());
    } else {
        let front = parts.drop_last();
        first_parts_come_first(front, sep);
        assert(front.skip(1) =~= rest.drop_last());
        assert(rest.last() == parts.last());
        assert(parts[0] + sep + text::joined(front.skip(1), sep) + sep + parts.last() =~= parts[0]
            + sep + (text::joined(front.skip(1), sep) + sep + parts.last()));
    }
}

proof fn directory_of_joined(parts: Seq<Seq<char>>, name: Seq<char>)
    requires
        are_names(parts),
        !name.contains('/'),
    ensures
        parts.len() == 0 ==> dependency::directory(text::joined(parts.push(name), "/"@)) is None,
        parts.len() > 0 ==> dependency::directory(text::joined(parts.push(name), "/"@)) == Some(
            text::joined(parts, "/"@),
        ),
{
    reveal_strlit("/");
    let whole = text::joined(parts.push(name), "/"@);
    if parts.len() == 0 {
        laws::last_separator(Seq::empty(), name);
        assert(parts.push(name)[0] == name);
        assert(Seq::<char>::empty() + name =~= name);
    } else {
        assert(parts.push(name).drop_last() =~= parts);
        let front = text::joined(parts, "/"@) + "/"@;
        assert(whole == front + name);
        laws::last_separator(front, name);
        assert(whole.take(front.len() - 1) =~= text::joined(parts, "/"@));
    }
}

/// The files that an import without an extension may mean.
pub open spec fn is_one_of(file: Seq<char>, at: Seq<char>) -> bool {
    file == at + ".ts"@ || file == at + ".tsx"@ || file == at + "/index.ts"@ || file == at
        + "/index.tsx"@
}

proof fn sources_end_so(file: Seq<char>, at: Seq<char>)
    requires
        is_one_of(file, at),
    ensures
        text::finishes_with(file, ".ts"@) || text::finishes_with(file, ".tsx"@),
{
    reveal_strlit(".ts");
    reveal_strlit(".tsx");
    reveal_strlit("/index.ts");
    reveal_strlit("/index.tsx");
    if file == at + ".ts"@ {
        assert(file.skip(file.len() - 3) =~= ".ts"@);
    } else if file == at + ".tsx"@ {
        assert(file.skip(file.len() - 4) =~= ".tsx"@);
    } else if file == at + "/index.ts"@ {
        assert(file.skip(file.len() - 3) =~= ".ts"@);
    } else {
        assert(file.skip(file.len() - 4) =~= ".tsx"@);
    }
}

proof fn relative_targets_start_so(ups: nat, names: Seq<Seq<char>>)
    requires
        names.len() > 0,
    ensures
        ({
            let target = text::joined(steps(ups, names), "/"@);
            text::begins_with(target, "./"@) || text::begins_with(target, "../"@)
        }),
{
    reveal_strlit("/");
    reveal_strlit(".");
    reveal_strlit("..");
    reveal_strlit("./");
    reveal_strlit("../");
    let all = steps(ups, names);
    first_parts_come_first(all, "/"@);
    let target = text::joined(all, "/"@);
    if ups == 0 {
        assert(all[0] == "."@);
        assert(target.take(2) =~= "./"@);
    } else {
        assert(all[0] == ".."@);
        assert(target.take(3) =~= "../"@);
    }
}

proof fn steps_hold_no_separator(ups: nat, names: Seq<Seq<char>>)
    requires
        go_down(names),
    ensures
        forall|i: int|
            0 <= i < steps(ups, names).len() ==> !(#[trigger] steps(ups, names)[i]).contains('/'),
{
    reveal_strlit(".");
    reveal_strlit("..");
    let all = steps(ups, names);
    let first: int = if ups == 0 {
        1
    } else {
        ups as int
    };
    assert forall|i: int| 0 <= i < all.len() implies !(#[trigger] all[i]).contains('/') by {
        if i >= first {
            assert(all[i] == names[i - first]);
        } else if ups == 0 {
            assert(all[i] == "."@);
        } else {
            assert(all[i] == ".."@);
        }
    }
}

/// A relative import of TypeScript goes up from the directory of its source and down along names,
/// to the one file there that is parsed.
pub proof fn relative_imports_lead_along_their_steps(
    report: ParseReportView,
    k: int,
    parts: Seq<Seq<char>>,
    name: Seq<char>,
    ups: nat,
    names: Seq<Seq<char>>,
    file: Seq<char>,
)
    requires
        0 <= k < report.imports.len(),
        are_names(parts),
        name.len() > 0 && !name.contains('/'),
        report.imports[k].path == text::joined(parts.push(name), "/"@),
        text::finishes_with(report.imports[k].path, ".ts"@) || text::finishes_with(
            report.imports[k].path,
            ".tsx"@,
        ),
        !text::finishes_with(report.imports[k].path, ".rs"@),
        forall|i: int|
            0 <= i < report.files.len() && (#[trigger] report.files[i]).path
                == report.imports[k].path ==> report.files[i].language != Some("Rust"@)
                && report.files[i].language != Some("Go"@),
        laws::is_parsed(report, report.imports[k].path),
        dependency::is_safe(report.imports[k].path),
        ups <= parts.len(),
        names.len() > 0,
        go_down(names),
        report.imports[k].target == text::joined(steps(ups, names), "/"@),
        !text::holds_part(report.imports[k].target, "\\"@),
        !text::holds_part(report.imports[k].target, "\0"@),
        ({
            let at = text::joined(parts.take(parts.len() - ups) + names, "/"@);
            &&& !text::finishes_with(at, ".ts"@)
            &&& !text::finishes_with(at, ".tsx"@)
            &&& is_one_of(file, at)
            &&& forall|other: Seq<char>| #[trigger]
                is_one_of(other, at) && other != file ==> !laws::is_parsed(report, other)
        }),
        dependency::is_safe(file),
        laws::is_parsed(report, file),
    ensures
        dependency::dependencies(report).contains(
            ResolvedDependencyEdgeView {
                source_path: report.imports[k].path,
                target_path: file,
                kind: report.imports[k].kind,
            },
        ),
{
    reveal_strlit("/");
    assert("/"@ =~= seq!['/']);
    let import = report.imports[k];
    let linked = dependency::linked_files(report.files);
    let reached = parts.take(parts.len() - ups) + names;
    let at = text::joined(reached, "/"@);
    laws::linked_where_parsed(report.files, import.path);
    sources_end_so(file, at);
    laws::linked_where_parsed(report.files, file);
    directory_of_joined(parts, name);
    directories_have_their_parts(parts);
    relative_targets_start_so(ups, names);
    steps_hold_no_separator(ups, names);
    text::joined_pieces(steps(ups, names), '/');
    steps_are_climbed(parts, ups, names);
    if parts.len() == 0 {
        assert(text::joined(parts, "/"@) =~= Seq::empty());
    }
    assert(dependency::relative_from(text::joined(parts, "/"@), import.target) == Some(at));
    let candidates = dependency::relative_candidates(at);
    assert(candidates[0] == at + ".ts"@ && candidates[1] == at + ".tsx"@ && candidates[2] == at
        + "/index.ts"@ && candidates[3] == at + "/index.tsx"@);
    assert forall|i: int|
        0 <= i < candidates.len() && linked.dom().contains(
            #[trigger] candidates[i],
        ) implies candidates[i] == file by {
        assert(is_one_of(candidates[i], at));
        if candidates[i] != file {
            laws::linked_is_parsed(report, candidates[i]);
        }
    }
    let n: int = if file == candidates[0] {
        0
    } else if file == candidates[1] {
        1
    } else if file == candidates[2] {
        2
    } else {
        3
    };
    laws::one_is_linked(candidates, linked, n);
    assert(linked[import.path] == DependencyLanguage::TypeScript);
    laws::edges_are_dependencies(
        report,
        k,
        ResolvedDependencyEdgeView {
            source_path: import.path,
            target_path: file,
            kind: import.kind,
        },
    );
}

/// Whether texts can name modules.
pub open spec fn name_modules(segments: Seq<Seq<char>>) -> bool {
    forall|i: int| 0 <= i < segments.len() ==> laws::names_module(#[trigger] segments[i])
}

proof fn part_is_found(s: Seq<char>, n: int, i: int)
    requires
        0 <= i <= n,
        n + 2 <= s.len(),
        s[n] == ':' && s[n + 1] == ':',
        forall|m: int| 0 <= m < n ==> #[trigger] s[m] != ':',
    ensures
        text::first_part(s, "::"@, i) == Some(n),
    decreases n - i,
{
    reveal_strlit("::");
    let here = s.subrange(i, i + 2);
    if i < n {
        assert(here[0] == s[i]);
        assert("::"@[0] == ':');
        part_is_found(s, n, i + 1);
    } else {
        assert(here =~= "::"@);
    }
}

proof fn part_is_not_found(s: Seq<char>, i: int)
    requires
        0 <= i,
        forall|m: int| 0 <= m < s.len() ==> #[trigger] s[m] != ':',
    ensures
        text::first_part(s, "::"@, i) is None,
    decreases s.len() + 1 - i,
{
    reveal_strlit("::");
    if i + 2 <= s.len() {
        assert(s.subrange(i, i + 2)[0] == s[i]);
        assert("::"@[0] == ':');
        part_is_not_found(s, i + 1);
    }
}

proof fn names_have_no_colon(s: Seq<char>)
    requires
        laws::names_module(s),
    ensures
        forall|m: int| 0 <= m < s.len() ==> #[trigger] s[m] != ':',
{
}

proof fn segments_come_apart(segments: Seq<Seq<char>>)
    requires
        segments.len() > 0,
        name_modules(segments),
    ensures
        text::split_parts(text::joined(segments, "::"@), "::"@) == segments,
    decreases segments.len(),
{
    reveal_strlit("::");
    let whole = text::joined(segments, "::"@);
    let first = segments[0];
    assert(laws::names_module(first));
    names_have_no_colon(first);
    if segments.len() == 1 {
        part_is_not_found(whole, 0);
        assert(seq![whole] =~= segments);
    } else {
        let rest = segments.skip(1);
        first_parts_come_first(segments, "::"@);
        assert forall|i: int| 0 <= i < rest.len() implies laws::names_module(
            #[trigger] rest[i],
        ) by {
            assert(rest[i] == segments[i + 1]);
        }
        segments_come_apart(rest);
        let n = first.len() as int;
        assert forall|m: int| 0 <= m < n implies #[trigger] whole[m] != ':' by {
            assert(whole[m] == first[m]);
        }
        assert(whole[n] == "::"@[0] && whole[n + 1] == "::"@[1]);
        part_is_found(whole, n, 0);
        assert(whole.take(n) =~= first);
        assert(whole.skip(n + 2) =~= text::joined(rest, "::"@));
        assert(seq![first] + rest =~= segments);
    }
}

/// Where the module that the first `j` segments name is looked for.
pub open spec fn module_at(base: Seq<char>, segments: Seq<Seq<char>>, j: int) -> Seq<char> {
    base + "/"@ + text::joined(segments.take(j), "/"@)
}

proof fn appended_segments(base: Seq<char>, segments: Seq<Seq<char>>)
    requires
        base.len() > 0,
        segments.len() > 0,
    ensures
        dependency::append_all(base, segments) == module_at(
            base,
            segments,
            segments.len() as int,
        ),
    decreases segments.len(),
{
    assert(segments.take(segments.len() as int) =~= segments);
    let front = segments.drop_last();
    if segments.len() == 1 {
        assert(front =~= Seq::empty());
        reveal_with_fuel(dependency::append_all, 2);
        assert(segments.last() == segments[0]);
    } else {
        appended_segments(base, front);
        assert(front.take(front.len() as int) =~= front);
        let all = dependency::append_all(base, front);
        assert(all.len() > 0);
        assert(all + "/"@ + segments.last() =~= base + "/"@ + (text::joined(front, "/"@) + "/"@
            + segments.last()));
    }
}

proof fn files_lie_along(base: Seq<char>, segments: Seq<Seq<char>>, j: int)
    requires
        base.len() > 0,
        1 <= j <= segments.len(),
    ensures
        dependency::files_along(base, segments).len() == 2 * segments.len(),
        dependency::files_along(base, segments)[2 * j - 2] == module_at(base, segments, j)
            + ".rs"@,
        dependency::files_along(base, segments)[2 * j - 1] == module_at(base, segments, j)
            + "/mod.rs"@,
    decreases segments.len(),
{
    let front = segments.drop_last();
    files_along_count(base, front);
    appended_segments(base, segments);
    if j < segments.len() {
        files_lie_along(base, front, j);
        assert(front.take(j) =~= segments.take(j));
    }
}

proof fn files_along_count(base: Seq<char>, segments: Seq<Seq<char>>)
    ensures
        dependency::files_along(base, segments).len() == 2 * segments.len(),
    decreases segments.len(),
{
    if segments.len() > 0 {
        files_along_count(base, segments.drop_last());
    }
}

/// Whether a file keeps the module that the first `j` segments name.
pub open spec fn keeps(
    file: Seq<char>,
    base: Seq<char>,
    segments: Seq<Seq<char>>,
    j: int,
) -> bool {
    file == module_at(base, segments, j) + ".rs"@ || file == module_at(base, segments, j)
        + "/mod.rs"@
}

/// Whether a file is the only one along a path of modules that is parsed.
pub open spec fn is_only_one(
    report: ParseReportView,
    file: Seq<char>,
    base: Seq<char>,
    segments: Seq<Seq<char>>,
    n: int,
) -> bool {
    &&& 1 <= n <= segments.len()
    &&& keeps(file, base, segments, n)
    &&& dependency::is_safe(file)
    &&& laws::is_parsed(report, file)
    &&& forall|other: Seq<char>, j: int|
        1 <= j <= segments.len() && #[trigger] keeps(other, base, segments, j) && other != file
            ==> !laws::is_parsed(report, other)
}

proof fn segments_are_identifiers(segments: Seq<Seq<char>>)
    requires
        name_modules(segments),
    ensures
        are_names(segments),
        forall|i: int|
            0 <= i < segments.len() ==> dependency::is_identifier(#[trigger] segments[i]),
{
    assert forall|i: int| 0 <= i < segments.len() implies (#[trigger] segments[i]).len() > 0
        && !segments[i].contains('/') && dependency::is_identifier(segments[i]) by {
        assert(laws::names_module(segments[i]));
        laws::names_are_identifiers(segments[i]);
        let s = segments[i];
        assert forall|m: int| 0 <= m < s.len() implies #[trigger] s[m] != '/' by {}
    }
}

proof fn candidates_keep_modules(base: Seq<char>, segments: Seq<Seq<char>>, i: int) -> (j: int)
    requires
        base.len() > 0,
        0 <= i < dependency::files_along(base, segments).len(),
    ensures
        1 <= j <= segments.len(),
        keeps(dependency::files_along(base, segments)[i], base, segments, j),
{
    files_along_count(base, segments);
    let j = i / 2 + 1;
    files_lie_along(base, segments, j);
    j
}

proof fn modules_end_so(file: Seq<char>, base: Seq<char>, segments: Seq<Seq<char>>, n: int)
    requires
        keeps(file, base, segments, n),
    ensures
        text::finishes_with(file, ".rs"@),
{
    reveal_strlit(".rs");
    reveal_strlit("/mod.rs");
    let at = module_at(base, segments, n);
    assert("/mod.rs"@.skip(4) =~= ".rs"@);
    if file == at + ".rs"@ {
        assert(file.skip(file.len() - 3) =~= ".rs"@);
    } else {
        assert(file.skip(file.len() - 3) =~= "/mod.rs"@.skip(4));
    }
}

proof fn other_candidates_are_not_linked(
    report: ParseReportView,
    base: Seq<char>,
    segments: Seq<Seq<char>>,
    file: Seq<char>,
    n: int,
    i: int,
)
    requires
        base.len() > 0,
        is_only_one(report, file, base, segments, n),
        0 <= i < dependency::files_along(base, segments).len(),
        dependency::linked_files(report.files).dom().contains(
            dependency::files_along(base, segments)[i],
        ),
    ensures
        dependency::files_along(base, segments)[i] == file,
{
    let one = dependency::files_along(base, segments)[i];
    let j = candidates_keep_modules(base, segments, i);
    if one != file {
        assert(keeps(one, base, segments, j));
        laws::linked_is_parsed(report, one);
    }
}

proof fn module_paths_are_followed(
    report: ParseReportView,
    base: Seq<char>,
    segments: Seq<Seq<char>>,
    file: Seq<char>,
    n: int,
)
    requires
        base.len() > 0,
        name_modules(segments),
        is_only_one(report, file, base, segments, n),
    ensures
        dependency::module_path_target(
            Some(base),
            text::joined(segments, "::"@),
            dependency::linked_files(report.files),
        ) == Some(file),
{
    let linked = dependency::linked_files(report.files);
    let candidates = dependency::files_along(base, segments);
    segments_come_apart(segments);
    segments_are_identifiers(segments);
    nothing_is_left_out(segments);
    assert(dependency::module_segments(text::joined(segments, "::"@)) == segments);
    let place: int = if file == module_at(base, segments, n) + ".rs"@ {
        2 * n - 2
    } else {
        2 * n - 1
    };
    assert(0 <= place < candidates.len() && candidates[place] == file) by {
        files_lie_along(base, segments, n);
    }
    assert(linked.dom().contains(file)) by {
        modules_end_so(file, base, segments, n);
        laws::linked_where_parsed(report.files, file);
    }
    assert forall|i: int|
        0 <= i < candidates.len() && linked.dom().contains(
            #[trigger] candidates[i],
        ) implies candidates[i] == candidates[place] by {
        other_candidates_are_not_linked(report, base, segments, file, n, i);
    }
    laws::one_is_linked(candidates, linked, place);
}

/// Whether an import names a single thing.
pub open spec fn is_single(target: Seq<char>) -> bool {
    &&& !text::holds_part(target, "{"@)
    &&& !text::holds_part(target, "}"@)
    &&& !text::holds_part(target, "*"@)
    &&& !text::holds_part(target, " as "@)
}

/// Whether an import is a `use` of a Rust source that is parsed.
pub open spec fn is_use(report: ParseReportView, k: int) -> bool {
    &&& 0 <= k < report.imports.len()
    &&& report.imports[k].kind == "use"@
    &&& text::finishes_with(report.imports[k].path, ".rs"@)
    &&& laws::is_parsed(report, report.imports[k].path)
    &&& dependency::is_safe(report.imports[k].path)
    &&& is_single(report.imports[k].target)
}

proof fn uses_are_no_modules()
    ensures
        "use"@ != "mod"@,
{
    reveal_strlit("use");
    reveal_strlit("mod");
    assert("use"@[0] != "mod"@[0]);
}

/// An import that starts at the crate leads from the last directory called `src` on the way to its
/// source, along the modules that it names.
pub proof fn imports_of_the_crate_start_at_src(
    report: ParseReportView,
    k: int,
    before: Seq<Seq<char>>,
    after: Seq<Seq<char>>,
    segments: Seq<Seq<char>>,
    file: Seq<char>,
    n: int,
)
    requires
        is_use(report, k),
        are_names(before),
        are_names(after),
        !after.contains("src"@),
        report.imports[k].path == text::joined(before.push("src"@) + after, "/"@),
        name_modules(segments),
        report.imports[k].target == "crate::"@ + text::joined(segments, "::"@),
        is_only_one(report, file, text::joined(before.push("src"@), "/"@), segments, n),
    ensures
        dependency::dependencies(report).contains(
            ResolvedDependencyEdgeView {
                source_path: report.imports[k].path,
                target_path: file,
                kind: "use"@,
            },
        ),
{
    reveal_strlit("/");
    reveal_strlit("src");
    assert("/"@ =~= seq!['/']);
    uses_are_no_modules();
    let import = report.imports[k];
    let linked = dependency::linked_files(report.files);
    let parts = before.push("src"@) + after;
    let base = text::joined(before.push("src"@), "/"@);
    laws::linked_where_parsed(report.files, import.path);
    assert forall|i: int| 0 <= i < parts.len() implies !(#[trigger] parts[i]).contains('/') by {
        if i < before.len() {
            assert(parts[i] == before[i]);
        } else if i == before.len() {
            assert(parts[i] == "src"@);
        } else {
            assert(parts[i] == after[i - before.len() - 1]);
        }
    }
    text::joined_pieces(parts, '/');
    last_source_directory(before, after);
    assert(parts.take(before.len() as int + 1) =~= before.push("src"@));
    assert(dependency::crate_root(import.path) == Some(base));
    assert(base.len() > 0) by {
        assert(before.push("src"@).last() == "src"@);
        assert("src"@.len() == 3);
    }
    let rest = text::joined(segments, "::"@);
    assert(import.target.take("crate::"@.len() as int) =~= "crate::"@);
    assert(import.target.skip("crate::"@.len() as int) =~= rest);
    module_paths_are_followed(report, base, segments, file, n);
    laws::edges_are_dependencies(
        report,
        k,
        ResolvedDependencyEdgeView { source_path: import.path, target_path: file, kind: "use"@ },
    );
}

proof fn last_source_directory(before: Seq<Seq<char>>, after: Seq<Seq<char>>)
    requires
        !after.contains("src"@),
    ensures
        dependency::last_part(before.push("src"@) + after, "src"@) == Some(before.len() as int),
    decreases after.len(),
{
    let parts = before.push("src"@) + after;
    if after.len() == 0 {
        assert(parts =~= before.push("src"@));
    } else {
        let front = after.drop_last();
        assert(after.contains(after.last()));
        assert forall|i: int| 0 <= i < front.len() implies front[i] != "src"@ by {
            assert(after[i] == front[i]);
        }
        last_source_directory(before, front);
        assert(parts.drop_last() =~= before.push("src"@) + front);
    }
}

/// An import that starts at its own module leads from the directory of the modules inside it.
pub proof fn imports_of_self_start_below_their_source(
    report: ParseReportView,
    k: int,
    front: Seq<char>,
    name: Seq<char>,
    segments: Seq<Seq<char>>,
    file: Seq<char>,
    n: int,
)
    requires
        is_use(report, k),
        report.imports[k].path == front + name + ".rs"@,
        front.len() == 0 || (front.last() == '/' && front.len() > 1),
        name.len() > 0 && !name.contains('/'),
        name != "lib"@ && name != "main"@ && name != "mod"@,
        name_modules(segments),
        report.imports[k].target == "self::"@ + text::joined(segments, "::"@),
        is_only_one(report, file, front + name, segments, n),
    ensures
        dependency::dependencies(report).contains(
            ResolvedDependencyEdgeView {
                source_path: report.imports[k].path,
                target_path: file,
                kind: "use"@,
            },
        ),
{
    reveal_strlit("crate::");
    reveal_strlit("self::");
    uses_are_no_modules();
    let import = report.imports[k];
    laws::linked_where_parsed(report.files, import.path);
    laws::base_of_source(front, name);
    let rest = text::joined(segments, "::"@);
    assert(import.target.take("self::"@.len() as int) =~= "self::"@);
    assert(import.target.skip("self::"@.len() as int) =~= rest);
    assert(!text::begins_with(import.target, "crate::"@)) by {
        assert(import.target[0] == "self::"@[0]);
        if text::begins_with(import.target, "crate::"@) {
            assert(import.target.take("crate::"@.len() as int)[0] == import.target[0]);
            assert("crate::"@[0] == 'c');
        }
    }
    module_paths_are_followed(report, front + name, segments, file, n);
    laws::edges_are_dependencies(
        report,
        k,
        ResolvedDependencyEdgeView { source_path: import.path, target_path: file, kind: "use"@ },
    );
}

} // verus!
