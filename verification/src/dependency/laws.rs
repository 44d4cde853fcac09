//! What holds of all dependencies.

use vstd::prelude::*;

use crate::dependency;
use crate::dependency::{DependencyLanguage, ResolvedDependencyEdge, ResolvedDependencyEdgeView};
use crate::order;
use crate::parse::{ParseFileRecordView, ParseFileStatus, ParseImportRecordView, ParseReportView};
use crate::text;

verus! {

/// Whether a report has a file that is parsed.
pub open spec fn is_parsed(report: ParseReportView, path: Seq<char>) -> bool {
    exists|i: int|
        0 <= i < report.files.len() && (#[trigger] report.files[i]).path == path
            && report.files[i].status == ParseFileStatus::Parsed
}

/// Whether a text can name a module: letters, digits and underscores, without a digit first.
pub open spec fn names_module(s: Seq<char>) -> bool {
    &&& s.len() > 0
    &&& !('0' <= s[0] <= '9')
    &&& forall|i: int|
        0 <= i < s.len() ==> 'a' <= #[trigger] s[i] <= 'z' || 'A' <= s[i] <= 'Z' || '0' <= s[i]
            <= '9' || s[i] == '_'
}

/// Whether an import stands inside a module that its file writes out.
pub open spec fn is_inside_module(report: ParseReportView, import: ParseImportRecordView) -> bool {
    exists|i: int|
        0 <= i < report.symbols.len() && (#[trigger] report.symbols[i]).path == import.path
            && report.symbols[i].kind == "module"@ && report.symbols[i].start_line
            < import.start_line && import.end_line <= report.symbols[i].end_line
}

pub proof fn linked_where_parsed(files: Seq<ParseFileRecordView>, path: Seq<char>)
    requires
        dependency::is_safe(path),
        text::finishes_with(path, ".rs"@) || text::finishes_with(path, ".ts"@)
            || text::finishes_with(path, ".tsx"@),
    ensures
        dependency::linked_files(files).dom().contains(path) <==> exists|i: int|
            0 <= i < files.len() && (#[trigger] files[i]).path == path && files[i].status
                == ParseFileStatus::Parsed,
        dependency::linked_files(files).dom().contains(path) && text::finishes_with(path, ".rs"@)
            ==> dependency::linked_files(files)[path] == DependencyLanguage::Rust,
        dependency::linked_files(files).dom().contains(path) && !text::finishes_with(path, ".rs"@)
            && (forall|i: int|
            0 <= i < files.len() && (#[trigger] files[i]).path == path ==> files[i].language
                != Some("Rust"@) && files[i].language != Some("Go"@)) ==> dependency::linked_files(
            files,
        )[path] == DependencyLanguage::TypeScript,
    decreases files.len(),
{
    reveal_strlit(".rs");
    reveal_strlit(".ts");
    reveal_strlit(".tsx");
    reveal_strlit(".go");
    if files.len() > 0 {
        let front = files.drop_last();
        let last = files.last();
        linked_where_parsed(front, path);
        assert(files[files.len() - 1] == last);
        assert forall|i: int| 0 <= i < front.len() implies #[trigger] front[i] == files[i] by {}
        if text::finishes_with(path, ".go"@) {
            assert(path.last() == path.skip(path.len() - 3).last());
            if text::finishes_with(path, ".tsx"@) {
                assert(path.last() == path.skip(path.len() - 4).last());
            }
        }
        if exists|i: int|
            0 <= i < front.len() && (#[trigger] front[i]).path == path && front[i].status
                == ParseFileStatus::Parsed {
            let i = choose|i: int|
                0 <= i < front.len() && (#[trigger] front[i]).path == path && front[i].status
                    == ParseFileStatus::Parsed;
            assert(files[i] == front[i]);
        }
        if exists|i: int|
            0 <= i < files.len() && (#[trigger] files[i]).path == path && files[i].status
                == ParseFileStatus::Parsed {
            let i = choose|i: int|
                0 <= i < files.len() && (#[trigger] files[i]).path == path && files[i].status
                    == ParseFileStatus::Parsed;
            if i < front.len() {
                assert(front[i] == files[i]);
            }
        }
    }
}

pub proof fn linked_is_parsed(report: ParseReportView, path: Seq<char>)
    requires
        !is_parsed(report, path),
    ensures
        !dependency::linked_files(report.files).dom().contains(path),
{
    if dependency::linked_files(report.files).dom().contains(path) {
        dependency::linked_files_are_parsed(report.files, path);
        let i = choose|i: int|
            0 <= i < report.files.len() && (#[trigger] report.files[i]).path == path
                && report.files[i].status == ParseFileStatus::Parsed;
        assert(report.files[i].path == path);
    }
}

proof fn found_edges_hold(
    imports: Seq<ParseImportRecordView>,
    report: ParseReportView,
    k: int,
    edge: ResolvedDependencyEdgeView,
)
    requires
        0 <= k < imports.len(),
        dependency::edge_of(imports[k], report) == Some(edge),
    ensures
        dependency::edges_found(imports, report).contains(edge),
    decreases imports.len(),
{
    let front = imports.drop_last();
    let before = dependency::edges_found(front, report);
    let after = dependency::edges_found(imports, report);
    if k < front.len() {
        found_edges_hold(front, report, k, edge);
        let i = choose|i: int| 0 <= i < before.len() && before[i] == edge;
        assert(after[i] == edge);
    } else if !before.contains(edge) {
        assert(after[before.len() as int] == edge);
    }
}

pub proof fn edges_are_dependencies(report: ParseReportView, k: int, edge: ResolvedDependencyEdgeView)
    requires
        0 <= k < report.imports.len(),
        dependency::edge_of(report.imports[k], report) == Some(edge),
    ensures
        dependency::dependencies(report).contains(edge),
{
    let lt = order::by_key::<ResolvedDependencyEdge>();
    let found = dependency::edges_found(report.imports, report);
    found_edges_hold(report.imports, report, k, edge);
    order::sorted_by_permutes(found, lt);
    order::contains_by_multiset(found, dependency::dependencies(report), edge);
}

proof fn found_edges_have_imports(
    imports: Seq<ParseImportRecordView>,
    report: ParseReportView,
    edge: ResolvedDependencyEdgeView,
) -> (k: int)
    requires
        dependency::edges_found(imports, report).contains(edge),
    ensures
        0 <= k < imports.len(),
        dependency::edge_of(imports[k], report) == Some(edge),
    decreases imports.len(),
{
    let front = imports.drop_last();
    let before = dependency::edges_found(front, report);
    let after = dependency::edges_found(imports, report);
    if before.contains(edge) {
        found_edges_have_imports(front, report, edge)
    } else {
        let i = choose|i: int| 0 <= i < after.len() && after[i] == edge;
        assert(i < before.len() ==> before[i] == edge);
        imports.len() - 1
    }
}

proof fn dependencies_have_imports(report: ParseReportView, i: int) -> (k: int)
    requires
        0 <= i < dependency::dependencies(report).len(),
    ensures
        0 <= k < report.imports.len(),
        dependency::edge_of(report.imports[k], report) == Some(
            dependency::dependencies(report)[i],
        ),
{
    let lt = order::by_key::<ResolvedDependencyEdge>();
    let found = dependency::edges_found(report.imports, report);
    let edge = dependency::dependencies(report)[i];
    order::sorted_by_permutes(found, lt);
    assert(dependency::dependencies(report).contains(edge));
    order::contains_by_multiset(dependency::dependencies(report), found, edge);
    found_edges_have_imports(report.imports, report, edge)
}

pub proof fn one_is_linked(
    candidates: Seq<Seq<char>>,
    linked: Map<Seq<char>, DependencyLanguage>,
    n: int,
)
    requires
        0 <= n < candidates.len(),
        linked.dom().contains(candidates[n]),
        forall|i: int|
            0 <= i < candidates.len() && linked.dom().contains(#[trigger] candidates[i])
                ==> candidates[i] == candidates[n],
    ensures
        dependency::only_linked(candidates, linked) == Some(candidates[n]),
{
    let keep = dependency::is_linked(linked);
    let found = candidates.filter(keep);
    candidates.filter_lemma(keep);
    assert(keep(candidates[n]));
    assert(found.contains(candidates[n]));
    assert forall|i: int| 0 <= i < found.len() implies #[trigger] found[i] == candidates[n] by {
        assert(found.contains(found[i]));
        candidates.lemma_filter_contains_rev(keep, found[i]);
        let k = choose|k: int| 0 <= k < candidates.len() && candidates[k] == found[i];
        assert(keep(found[i]));
        assert(linked.dom().contains(candidates[k]));
    }
}

pub proof fn names_are_identifiers(m: Seq<char>)
    requires
        names_module(m),
    ensures
        dependency::is_identifier(m),
{
    assert(m[0] == m[0]);
    assert forall|i: int| 0 < i < m.len() implies dependency::is_word_char(#[trigger] m[i]) by {}
}

pub proof fn last_separator(front: Seq<char>, name: Seq<char>)
    requires
        front.len() == 0 || front.last() == '/',
        !name.contains('/'),
    ensures
        text::last_index(front + name, '/') == (if front.len() == 0 {
            None
        } else {
            Some(front.len() - 1)
        }),
    decreases name.len(),
{
    if name.len() == 0 {
        assert(front + name =~= front);
    } else {
        let shorter = name.drop_last();
        assert(name.contains(name.last()));
        assert forall|i: int| 0 <= i < shorter.len() implies shorter[i] != '/' by {
            assert(name[i] == shorter[i]);
            assert(name.contains(name[i]));
        }
        assert((front + name).drop_last() =~= front + shorter);
        last_separator(front, shorter);
    }
}

/// The directory in which a source `front` + `name` + `.rs` keeps its child modules.
pub proof fn base_of_source(front: Seq<char>, name: Seq<char>)
    requires
        front.len() == 0 || (front.last() == '/' && front.len() > 1),
        !name.contains('/'),
        name.len() > 0,
    ensures
        dependency::child_module_base(front + name + ".rs"@) == Some(
            if name == "lib"@ || name == "main"@ || name == "mod"@ {
                if front.len() == 0 {
                    front
                } else {
                    front.drop_last()
                }
            } else {
                front + name
            },
        ),
{
    reveal_strlit(".rs");
    reveal_strlit("/");
    reveal_strlit("lib.rs");
    reveal_strlit("main.rs");
    reveal_strlit("mod.rs");
    reveal_strlit("lib");
    reveal_strlit("main");
    reveal_strlit("mod");
    let file = name + ".rs"@;
    let path = front + name + ".rs"@;
    assert(path =~= front + file);
    assert forall|i: int| 0 <= i < file.len() implies file[i] != '/' by {
        if i < name.len() {
            assert(name.contains(name[i]));
        }
    }
    last_separator(front, file);
    if front.len() == 0 {
        assert(dependency::last_name(path) =~= file);
    } else {
        assert(path.skip(front.len() as int) =~= file);
        assert(path.take(front.len() - 1) =~= front.drop_last());
        assert(dependency::last_name(path) =~= file);
    }
    assert(file.take(name.len() as int) =~= name);
    assert(file.skip(file.len() - 3) =~= ".rs"@);
    assert(file == "lib.rs"@ <==> name == "lib"@) by {
        assert("lib.rs"@.take(3) =~= "lib"@);
        if name == "lib"@ {
            assert(file =~= "lib.rs"@);
        }
    }
    assert(file == "main.rs"@ <==> name == "main"@) by {
        assert("main.rs"@.take(4) =~= "main"@);
        if name == "main"@ {
            assert(file =~= "main.rs"@);
        }
    }
    assert(file == "mod.rs"@ <==> name == "mod"@) by {
        assert("mod.rs"@.take(3) =~= "mod"@);
        if name == "mod"@ {
            assert(file =~= "mod.rs"@);
        }
    }
    if front.len() > 0 {
        assert(front.drop_last() + "/"@ + name =~= front + name);
    } else {
        assert(front + name =~= name);
    }
}

/// A module that a source declares is found in the directory where `base` says: in the file that
/// has its name, or in `mod.rs` of the directory that has it.
proof fn module_is_found(report: ParseReportView, k: int, base: Seq<char>, at: Seq<char>, file: Seq<char>)
    requires
        0 <= k < report.imports.len(),
        report.imports[k].kind == "mod"@,
        names_module(report.imports[k].target),
        text::finishes_with(report.imports[k].path, ".rs"@),
        is_parsed(report, report.imports[k].path),
        dependency::is_safe(report.imports[k].path),
        !is_inside_module(report, report.imports[k]),
        dependency::child_module_base(report.imports[k].path) == Some(base),
        at == dependency::append(base, report.imports[k].target),
        file == at + ".rs"@ || file == at + "/mod.rs"@,
        dependency::is_safe(file),
        is_parsed(report, file),
        file != at + ".rs"@ ==> !is_parsed(report, at + ".rs"@),
        file != at + "/mod.rs"@ ==> !is_parsed(report, at + "/mod.rs"@),
    ensures
        dependency::dependencies(report).contains(
            ResolvedDependencyEdgeView {
                source_path: report.imports[k].path,
                target_path: file,
                kind: "mod"@,
            },
        ),
{
    reveal_strlit(".rs");
    reveal_strlit("/mod.rs");
    let import = report.imports[k];
    let linked = dependency::linked_files(report.files);
    linked_where_parsed(report.files, import.path);
    names_are_identifiers(import.target);
    let candidates = dependency::module_files(at);
    assert(file.skip(file.len() - 3) =~= ".rs"@) by {
        if file == at + ".rs"@ {
            assert(file.skip(file.len() - 3) =~= ".rs"@);
        } else {
            assert("/mod.rs"@.skip(4) =~= ".rs"@);
            assert(file.skip(file.len() - 3) =~= "/mod.rs"@.skip(4));
        }
    }
    linked_where_parsed(report.files, file);
    assert(candidates[0] == at + ".rs"@ && candidates[1] == at + "/mod.rs"@);
    if file != candidates[0] {
        linked_is_parsed(report, candidates[0]);
    }
    if file != candidates[1] {
        linked_is_parsed(report, candidates[1]);
    }
    let n: int = if file == candidates[0] {
        0
    } else {
        1
    };
    one_is_linked(candidates, linked, n);
    assert(!dependency::is_nested(import, report.symbols)) by {
        if dependency::is_nested(import, report.symbols) {
            let i = choose|i: int|
                0 <= i < report.symbols.len() && dependency::encloses(
                    #[trigger] report.symbols[i],
                    import,
                );
            assert(report.symbols[i].path == import.path);
        }
    }
    edges_are_dependencies(
        report,
        k,
        ResolvedDependencyEdgeView { source_path: import.path, target_path: file, kind: "mod"@ },
    );
}

/// A module that `front/name.rs` declares is kept in the directory `front/name`, as `m.rs` or as
/// `m/mod.rs`, whichever of them is parsed.
pub proof fn modules_lie_below_their_source(
    report: ParseReportView,
    k: int,
    front: Seq<char>,
    name: Seq<char>,
    file: Seq<char>,
)
    requires
        0 <= k < report.imports.len(),
        report.imports[k].kind == "mod"@,
        names_module(report.imports[k].target),
        report.imports[k].path == front + name + ".rs"@,
        front.len() == 0 || front.last() == '/',
        name.len() > 0 && !name.contains('/'),
        name != "lib"@ && name != "main"@ && name != "mod"@,
        is_parsed(report, report.imports[k].path),
        dependency::is_safe(report.imports[k].path),
        !is_inside_module(report, report.imports[k]),
        ({
            let single = front + name + "/"@ + report.imports[k].target + ".rs"@;
            let directory = front + name + "/"@ + report.imports[k].target + "/mod.rs"@;
            ||| file == single && !is_parsed(report, directory)
            ||| file == directory && !is_parsed(report, single)
        }),
        dependency::is_safe(file),
        is_parsed(report, file),
    ensures
        dependency::dependencies(report).contains(
            ResolvedDependencyEdgeView {
                source_path: report.imports[k].path,
                target_path: file,
                kind: "mod"@,
            },
        ),
{
    reveal_strlit(".rs");
    reveal_strlit("/");
    let source = report.imports[k].path;
    let m = report.imports[k].target;
    if front.len() == 1 {
        assert(source.take(1) =~= "/"@);
        assert(text::begins_with(source, "/"@));
    }
    base_of_source(front, name);
    let base = front + name;
    let at = base + "/"@ + m;
    assert(source.skip(source.len() - 3) =~= ".rs"@);
    module_is_found(report, k, base, at, file);
}

/// A module that `lib.rs`, `main.rs` or `mod.rs` declares is kept beside it, as `m.rs` or as
/// `m/mod.rs`, whichever of them is parsed.
pub proof fn modules_lie_beside_a_root(
    report: ParseReportView,
    k: int,
    front: Seq<char>,
    name: Seq<char>,
    file: Seq<char>,
)
    requires
        0 <= k < report.imports.len(),
        report.imports[k].kind == "mod"@,
        names_module(report.imports[k].target),
        report.imports[k].path == front + name + ".rs"@,
        front.len() == 0 || front.last() == '/',
        name == "lib"@ || name == "main"@ || name == "mod"@,
        is_parsed(report, report.imports[k].path),
        dependency::is_safe(report.imports[k].path),
        !is_inside_module(report, report.imports[k]),
        ({
            let single = front + report.imports[k].target + ".rs"@;
            let directory = front + report.imports[k].target + "/mod.rs"@;
            ||| file == single && !is_parsed(report, directory)
            ||| file == directory && !is_parsed(report, single)
        }),
        dependency::is_safe(file),
        is_parsed(report, file),
    ensures
        dependency::dependencies(report).contains(
            ResolvedDependencyEdgeView {
                source_path: report.imports[k].path,
                target_path: file,
                kind: "mod"@,
            },
        ),
{
    reveal_strlit(".rs");
    reveal_strlit("/");
    reveal_strlit("lib");
    reveal_strlit("main");
    reveal_strlit("mod");
    let source = report.imports[k].path;
    let m = report.imports[k].target;
    if front.len() == 1 {
        assert(source.take(1) =~= "/"@);
        assert(text::begins_with(source, "/"@));
    }
    base_of_source(front, name);
    assert(source.skip(source.len() - 3) =~= ".rs"@);
    let base = if front.len() == 0 {
        front
    } else {
        front.drop_last()
    };
    let at = front + m;
    if front.len() > 0 {
        assert(front.drop_last() + "/"@ + m =~= at);
    } else {
        assert(front + m =~= m);
    }
    module_is_found(report, k, base, at, file);
}

/// A module that is written out in its file, or stands inside one that is, leads to no other file.
pub proof fn modules_inside_modules_lead_nowhere(report: ParseReportView, source: Seq<char>, i: int)
    requires
        text::finishes_with(source, ".rs"@),
        forall|k: int|
            0 <= k < report.imports.len() && (#[trigger] report.imports[k]).path == source
                && report.imports[k].kind == "mod"@ ==> is_inside_module(report, report.imports[k]),
        0 <= i < dependency::dependencies(report).len(),
    ensures
        !(dependency::dependencies(report)[i].source_path == source && dependency::dependencies(
            report,
        )[i].kind == "mod"@),
{
    let edge = dependency::dependencies(report)[i];
    let k = dependencies_have_imports(report, i);
    let import = report.imports[k];
    if edge.source_path == source && edge.kind == "mod"@ {
        assert(import.path == source);
        dependency::linked_files_are_parsed(report.files, source);
        linked_where_parsed(report.files, source);
        let n = choose|n: int|
            0 <= n < report.symbols.len() && (#[trigger] report.symbols[n]).path == import.path
                && report.symbols[n].kind == "module"@ && report.symbols[n].start_line
                < import.start_line && import.end_line <= report.symbols[n].end_line;
        assert(dependency::encloses(report.symbols[n], import));
    }
}

/// Every dependency is that of an import in its source, of the same kind, and joins two parsed
/// files. Only `mod` and `use` lead from a Rust source.
pub proof fn dependencies_come_from_imports(report: ParseReportView, i: int) -> (k: int)
    requires
        0 <= i < dependency::dependencies(report).len(),
    ensures
        0 <= k < report.imports.len(),
        report.imports[k].path == dependency::dependencies(report)[i].source_path,
        report.imports[k].kind == dependency::dependencies(report)[i].kind,
        is_parsed(report, dependency::dependencies(report)[i].source_path),
        is_parsed(report, dependency::dependencies(report)[i].target_path),
        text::finishes_with(report.imports[k].path, ".rs"@) ==> report.imports[k].kind == "mod"@
            || report.imports[k].kind == "use"@,
{
    let edge = dependency::dependencies(report)[i];
    let k = dependencies_have_imports(report, i);
    dependency::dependencies_join_linked_files(report, i);
    if !is_parsed(report, edge.source_path) {
        linked_is_parsed(report, edge.source_path);
    }
    if !is_parsed(report, edge.target_path) {
        linked_is_parsed(report, edge.target_path);
    }
    if text::finishes_with(report.imports[k].path, ".rs"@) {
        dependency::linked_files_are_parsed(report.files, edge.source_path);
        linked_where_parsed(report.files, edge.source_path);
    }
    k
}

/// The imports of a Go source lead to no file.
pub proof fn go_imports_lead_nowhere(report: ParseReportView, i: int)
    requires
        0 <= i < dependency::dependencies(report).len(),
        forall|n: int|
            0 <= n < report.files.len() && (#[trigger] report.files[n]).path
                == dependency::dependencies(report)[i].source_path ==> report.files[n].language
                != Some("Rust"@),
    ensures
        !text::finishes_with(dependency::dependencies(report)[i].source_path, ".go"@),
{
    let edge = dependency::dependencies(report)[i];
    let k = dependencies_have_imports(report, i);
    dependency::dependencies_join_linked_files(report, i);
    if text::finishes_with(edge.source_path, ".go"@) {
        if dependency::linked_files(report.files)[edge.source_path] != DependencyLanguage::Go {
            go_is_linked(report.files, edge.source_path);
        }
    }
}

proof fn go_is_linked(files: Seq<ParseFileRecordView>, path: Seq<char>)
    requires
        text::finishes_with(path, ".go"@),
        dependency::linked_files(files).dom().contains(path),
        dependency::linked_files(files)[path] != DependencyLanguage::Go,
    ensures
        exists|i: int|
            0 <= i < files.len() && (#[trigger] files[i]).path == path && files[i].language
                == Some("Rust"@),
    decreases files.len(),
{
    reveal_strlit(".rs");
    reveal_strlit(".go");
    if files.len() > 0 {
        let front = files.drop_last();
        let last = files.last();
        assert(files[files.len() - 1] == last);
        if text::finishes_with(path, ".rs"@) {
            assert(path.last() == path.skip(path.len() - 3).last());
        }
        if !(last.path == path && dependency::linked_language(last) is Some) {
            go_is_linked(front, path);
            let i = choose|i: int|
                0 <= i < front.len() && (#[trigger] front[i]).path == path && front[i].language
                    == Some("Rust"@);
            assert(files[i] == front[i]);
        }
    }
}

} // verus!
