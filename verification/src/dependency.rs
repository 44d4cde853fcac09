//! Which files depend on which: imports led back to files of the repository.

pub mod fan;
pub mod imports;
pub mod laws;

use vstd::prelude::*;

use crate::order;
use crate::order::{KeyPart, Ordered};
use crate::parse::{
    ParseFileRecord, ParseFileRecordView, ParseFileStatus, ParseImportRecord,
    ParseImportRecordView, ParseReport, ParseReportView, ParseSymbolRecord, ParseSymbolRecordView,
};
use crate::table::TextMap;
use crate::text;

verus! {

/// A file that depends on another one.
#[derive(Debug, Clone, PartialEq, Eq, PartialOrd, Ord)]
pub struct ResolvedDependencyEdge {
    pub source_path: String,
    pub target_path: String,
    pub kind: String,
}

/// How many files depend on a file, and on how many it depends.
#[derive(Debug, Clone, Copy, PartialEq, Eq, Structural)]
pub struct FileDependencyFan {
    pub fan_in: u64,
    pub fan_out: u64,
}

impl Default for FileDependencyFan {
    fn default() -> (out: FileDependencyFan)
        ensures
            out == (FileDependencyFan { fan_in: 0, fan_out: 0 }),
    {
        FileDependencyFan { fan_in: 0, fan_out: 0 }
    }
}

/// How files depend on each other.
pub struct DependencyFanMetrics {
    /// The numbers of each file.
    pub by_path: TextMap<FileDependencyFan>,
    pub dependency_edge_count: u64,
    pub max_fan_in: u64,
    pub max_fan_out: u64,
}

/// A language whose imports lead to files.
#[derive(Debug, Clone, Copy, PartialEq, Eq, Structural)]
pub enum DependencyLanguage {
    Rust,
    Go,
    TypeScript,
}

/// What a [`ResolvedDependencyEdge`] stands for.
#[verifier::ext_equal]
pub struct ResolvedDependencyEdgeView {
    pub source_path: Seq<char>,
    pub target_path: Seq<char>,
    pub kind: Seq<char>,
}

impl DeepView for ResolvedDependencyEdge {
    type V = ResolvedDependencyEdgeView;

    open spec fn deep_view(&self) -> ResolvedDependencyEdgeView {
        ResolvedDependencyEdgeView {
            source_path: self.source_path@,
            target_path: self.target_path@,
            kind: self.kind@,
        }
    }
}

impl DeepView for FileDependencyFan {
    type V = FileDependencyFan;

    open spec fn deep_view(&self) -> FileDependencyFan {
        *self
    }
}

impl Ordered for ResolvedDependencyEdge {
    /// Edges are ordered by source, target and kind.
    open spec fn key(v: ResolvedDependencyEdgeView) -> Seq<KeyPart> {
        seq![
            KeyPart::Text(v.source_path),
            KeyPart::Text(v.target_path),
            KeyPart::Text(v.kind),
        ]
    }

    fn comes_before(&self, other: &Self) -> (r: bool) {
        proof {
            reveal_with_fuel(order::key_lt_from, 4);
        }
        if text::precedes(self.source_path.as_str(), other.source_path.as_str()) {
            return true;
        }
        if text::precedes(other.source_path.as_str(), self.source_path.as_str()) {
            return false;
        }
        if text::precedes(self.target_path.as_str(), other.target_path.as_str()) {
            return true;
        }
        if text::precedes(other.target_path.as_str(), self.target_path.as_str()) {
            return false;
        }
        text::precedes(self.kind.as_str(), other.kind.as_str())
    }
}

/// Whether a path starts like `C:`.
pub open spec fn has_drive(path: Seq<char>) -> bool {
    path.len() >= 2 && is_letter(path[0]) && path[1] == ':'
}

/// Whether a character is an ASCII letter.
pub open spec fn is_letter(c: char) -> bool {
    'a' <= c <= 'z' || 'A' <= c <= 'Z'
}

/// Whether a path stays inside the repository.
pub open spec fn is_safe(path: Seq<char>) -> bool {
    &&& path.len() > 0
    &&& path != ".."@
    &&& !text::begins_with(path, "/"@)
    &&& !text::begins_with(path, "./"@)
    &&& !text::begins_with(path, "../"@)
    &&& !text::begins_with(path, "~"@)
    &&& !text::holds_part(path, "\\"@)
    &&& !text::holds_part(path, "\0"@)
    &&& !text::holds_part(path, "/../"@)
    &&& !text::finishes_with(path, "/.."@)
    &&& !has_drive(path)
}

/// Whether a path stays inside the repository.
pub fn is_safe_repo_path(path: &str) -> (r: bool)
    ensures
        r == is_safe(path@),
{
    !path.is_empty() && !text::same(path, "..") && !text::starts_with(path, "/")
        && !text::starts_with(path, "./") && !text::starts_with(path, "../")
        && !text::starts_with(path, "~") && !text::contains(path, "\\")
        && !text::contains(path, "\0") && !text::contains(path, "/../")
        && !text::ends_with(path, "/..") && !looks_like_windows_absolute_path(path)
}

fn looks_like_windows_absolute_path(path: &str) -> (r: bool)
    ensures
        r == has_drive(path@),
{
    let chars = text::chars_of(path);
    chars.len() >= 2 && letter(chars[0]) && chars[1] == ':'
}

fn letter(c: char) -> (r: bool)
    ensures
        r == is_letter(c),
{
    ('a' <= c && c <= 'z') || ('A' <= c && c <= 'Z')
}

/// The language by which the imports of a file are resolved.
pub open spec fn import_language(file: ParseFileRecordView) -> Option<DependencyLanguage> {
    if text::finishes_with(file.path, ".rs"@) || file.language == Some("Rust"@) {
        Some(DependencyLanguage::Rust)
    } else if text::finishes_with(file.path, ".go"@) || file.language == Some("Go"@) {
        Some(DependencyLanguage::Go)
    } else if text::finishes_with(file.path, ".ts"@) || text::finishes_with(file.path, ".tsx"@)
        || file.language == Some("TypeScript"@) || file.language == Some("TypeScript JSX"@) {
        Some(DependencyLanguage::TypeScript)
    } else {
        None
    }
}

fn has_language(file: &ParseFileRecord, language: &str) -> (r: bool)
    ensures
        r == (file.deep_view().language == Some(language@)),
{
    match file.language {
        Some(own) => text::same(own, language),
        None => false,
    }
}

fn dependency_language(file: &ParseFileRecord) -> (out: Option<DependencyLanguage>)
    ensures
        out == import_language(file.deep_view()),
{
    let path = file.path.as_str();
    if text::ends_with(path, ".rs") || has_language(file, "Rust") {
        Some(DependencyLanguage::Rust)
    } else if text::ends_with(path, ".go") || has_language(file, "Go") {
        Some(DependencyLanguage::Go)
    } else if text::ends_with(path, ".ts") || text::ends_with(path, ".tsx") || has_language(
        file,
        "TypeScript",
    ) || has_language(file, "TypeScript JSX") {
        Some(DependencyLanguage::TypeScript)
    } else {
        None
    }
}

/// The language of a file that takes part in dependencies: it is parsed, its path stays
/// inside the repository, and its imports can be resolved.
pub open spec fn linked_language(file: ParseFileRecordView) -> Option<DependencyLanguage> {
    if file.status != ParseFileStatus::Parsed || !is_safe(file.path) {
        None
    } else {
        import_language(file)
    }
}

fn parsed_dependency_file(file: &ParseFileRecord) -> (out: Option<DependencyLanguage>)
    ensures
        out == linked_language(file.deep_view()),
{
    if file.status != ParseFileStatus::Parsed || !is_safe_repo_path(file.path.as_str()) {
        return None;
    }
    dependency_language(file)
}

/// The files that take part in dependencies, with their languages.
pub open spec fn linked_files(files: Seq<ParseFileRecordView>) -> Map<
    Seq<char>,
    DependencyLanguage,
>
    decreases files.len(),
{
    if files.len() == 0 {
        Map::empty()
    } else {
        let before = linked_files(files.drop_last());
        match linked_language(files.last()) {
            Some(language) => before.insert(files.last().path, language),
            None => before,
        }
    }
}

fn linked_files_of(files: &Vec<ParseFileRecord>) -> (out: TextMap<DependencyLanguage>)
    ensures
        out.wf(),
        out@ == linked_files(files.deep_view()),
{
    let ghost all = files.deep_view();
    let mut out: TextMap<DependencyLanguage> = TextMap::new();
    let mut i: usize = 0;
    while i < files.len()
        invariant
            i <= files.len(),
            all == files.deep_view(),
            out.wf(),
            out@ == linked_files(all.take(i as int)),
        decreases files.len() - i,
    {
        let file = &files[i];
        assert(all.take(i + 1).drop_last() =~= all.take(i as int));
        assert(all.take(i + 1).last() == file.deep_view());
        if let Some(language) = parsed_dependency_file(file) {
            out.insert(file.path.as_str(), language);
        }
        i = i + 1;
    }
    assert(all.take(i as int) =~= all);
    out
}

/// A path with a segment behind it.
pub open spec fn append(base: Seq<char>, child: Seq<char>) -> Seq<char> {
    if base.len() == 0 {
        child
    } else {
        base + "/"@ + child
    }
}

fn append_path(base: &str, child: &str) -> (out: String)
    ensures
        out@ == append(base@, child@),
{
    if base.is_empty() {
        child.to_string()
    } else {
        let mut out = base.to_string();
        out.append("/");
        out.append(child);
        out
    }
}

fn with_tail(base: &str, tail: &str) -> (out: String)
    ensures
        out@ == base@ + tail@,
{
    let mut out = base.to_string();
    out.append(tail);
    out
}

/// The directory that a path lies in, where it names one.
pub open spec fn directory(path: Seq<char>) -> Option<Seq<char>> {
    match text::last_index(path, '/') {
        Some(i) => Some(path.take(i)),
        None => None,
    }
}

/// What stands behind the last `/` of a path.
pub open spec fn last_name(path: Seq<char>) -> Seq<char> {
    match text::last_index(path, '/') {
        Some(i) => path.skip(i + 1),
        None => path,
    }
}

fn parent_dir(path: &str) -> (out: Option<String>)
    ensures
        out.deep_view() == directory(path@),
{
    let chars = text::chars_of(path);
    match text::find_last(chars.as_slice(), '/') {
        Some(i) => {
            let front = vstd::slice::slice_subrange(chars.as_slice(), 0, i);
            assert(front@ =~= path@.take(i as int));
            Some(text::string_of(front))
        },
        None => None,
    }
}

pub(crate) fn file_name_of(path: &str) -> (out: String)
    ensures
        out@ == last_name(path@),
{
    let chars = text::chars_of(path);
    match text::find_last(chars.as_slice(), '/') {
        Some(i) => {
            let back = vstd::slice::slice_subrange(chars.as_slice(), i + 1, chars.len());
            assert(back@ =~= path@.skip(i + 1));
            text::string_of(back)
        },
        None => path.to_string(),
    }
}

/// Whether a text is an identifier.
pub open spec fn is_identifier(s: Seq<char>) -> bool {
    &&& s.len() > 0
    &&& s[0] == '_' || is_letter(s[0])
    &&& forall|i: int| 0 < i < s.len() ==> is_word_char(#[trigger] s[i])
}

/// Whether a character may stand in an identifier.
pub open spec fn is_word_char(c: char) -> bool {
    c == '_' || is_letter(c) || '0' <= c <= '9'
}

fn is_rust_identifier(value: &str) -> (r: bool)
    ensures
        r == is_identifier(value@),
{
    let chars = text::chars_of(value);
    if chars.len() == 0 {
        return false;
    }
    if chars[0] != '_' && !letter(chars[0]) {
        return false;
    }
    let mut i: usize = 1;
    while i < chars.len()
        invariant
            chars@ == value@,
            1 <= i <= chars.len(),
            forall|j: int| 0 < j < i ==> is_word_char(#[trigger] value@[j]),
        decreases chars.len() - i,
    {
        let c: char = chars[i];
        if c != '_' && !letter(c) && !('0' <= c && c <= '9') {
            assert(!is_word_char(value@[i as int]));
            return false;
        }
        i = i + 1;
    }
    true
}

/// The directory in which the child modules of a source are looked for.
pub open spec fn child_module_base(source_path: Seq<char>) -> Option<Seq<char>> {
    let parent = match directory(source_path) {
        Some(parent) => parent,
        None => Seq::empty(),
    };
    let name = last_name(source_path);
    if name == "lib.rs"@ || name == "main.rs"@ || name == "mod.rs"@ {
        Some(parent)
    } else {
        match text::without_suffix(name, ".rs"@) {
            Some(stem) => Some(append(parent, stem)),
            None => None,
        }
    }
}

fn rust_child_module_base(source_path: &str) -> (out: Option<String>)
    ensures
        out.deep_view() == child_module_base(source_path@),
{
    let parent = match parent_dir(source_path) {
        Some(parent) => parent,
        None => String::new(),
    };
    assert(directory(source_path@) is None ==> parent@ =~= Seq::<char>::empty());
    let name = file_name_of(source_path);
    let name = name.as_str();
    if text::same(name, "lib.rs") || text::same(name, "main.rs") || text::same(name, "mod.rs") {
        return Some(parent);
    }
    match text::strip_suffix(name, ".rs") {
        Some(stem) => Some(append_path(parent.as_str(), stem.as_str())),
        None => None,
    }
}

/// The index of the last of the parts that equals `x`.
pub open spec fn last_part(parts: Seq<Seq<char>>, x: Seq<char>) -> Option<int>
    decreases parts.len(),
{
    if parts.len() == 0 {
        None
    } else if parts.last() == x {
        Some(parts.len() - 1)
    } else {
        last_part(parts.drop_last(), x)
    }
}

/// The last directory called `src` on the way to a source.
pub open spec fn crate_root(source_path: Seq<char>) -> Option<Seq<char>> {
    let parts = text::split_on(source_path, '/');
    match last_part(parts, "src"@) {
        Some(i) => Some(text::joined(parts.take(i + 1), "/"@)),
        None => None,
    }
}

fn rust_crate_root(source_path: &str) -> (out: Option<String>)
    ensures
        out.deep_view() == crate_root(source_path@),
{
    let parts = text::split_text(source_path, '/');
    let ghost all = parts.deep_view();
    let mut i: usize = parts.len();
    assert(all.take(i as int) =~= all);
    while i > 0
        invariant
            i <= parts.len(),
            all == parts.deep_view(),
            all == text::split_on(source_path@, '/'),
            last_part(all, "src"@) == last_part(all.take(i as int), "src"@),
        decreases i,
    {
        assert(all.take(i as int).last() == parts@[i - 1]@);
        assert(all.take(i as int).drop_last() =~= all.take(i - 1));
        if text::same(parts[i - 1].as_str(), "src") {
            let front = vstd::slice::slice_subrange(parts.as_slice(), 0, i);
            assert(front.deep_view() =~= all.take(i as int));
            return Some(text::join(front, "/"));
        }
        i = i - 1;
    }
    None
}

/// Whether a text holds something.
pub open spec fn is_not_empty() -> spec_fn(Seq<char>) -> bool {
    |s: Seq<char>| s.len() > 0
}

fn only_not_empty(parts: Vec<String>) -> (out: Vec<String>)
    ensures
        out.deep_view() == parts.deep_view().filter(is_not_empty()),
{
    let ghost all = parts.deep_view();
    let ghost keep = is_not_empty();
    let mut out: Vec<String> = Vec::new();
    let mut i: usize = 0;
    proof {
        reveal(Seq::filter);
        assert(out.deep_view() =~= all.take(0).filter(keep));
    }
    while i < parts.len()
        invariant
            i <= parts.len(),
            all == parts.deep_view(),
            keep == is_not_empty(),
            out.deep_view() == all.take(i as int).filter(keep),
        decreases parts.len() - i,
    {
        let part = &parts[i];
        let ghost before = out.deep_view();
        proof {
            reveal(Seq::filter);
            assert(all.take(i + 1).drop_last() =~= all.take(i as int));
            assert(all.take(i + 1).last() == part@);
        }
        if !part.as_str().is_empty() {
            out.push(part.clone());
            assert(out.deep_view() =~= before.push(part@));
        }
        i = i + 1;
    }
    assert(all.take(i as int) =~= all);
    out
}

/// The parts that lead from a directory along a relative path; none where the path
/// climbs out of what the directory names.
pub open spec fn climbed(parts: Seq<Seq<char>>, steps: Seq<Seq<char>>) -> Option<Seq<Seq<char>>>
    decreases steps.len(),
{
    if steps.len() == 0 {
        Some(parts)
    } else {
        let step = steps.last();
        match climbed(parts, steps.drop_last()) {
            None => None,
            Some(reached) => if step.len() == 0 || step == "."@ {
                Some(reached)
            } else if step == ".."@ {
                if reached.len() == 0 {
                    None
                } else {
                    Some(reached.drop_last())
                }
            } else {
                Some(reached.push(step))
            },
        }
    }
}

/// Where a relative path leads from a directory.
pub open spec fn relative_from(base: Seq<char>, target: Seq<char>) -> Option<Seq<char>> {
    match climbed(
        text::split_on(base, '/').filter(is_not_empty()),
        text::split_on(target, '/'),
    ) {
        None => None,
        Some(parts) => if parts.len() == 0 {
            None
        } else {
            Some(text::joined(parts, "/"@))
        },
    }
}

proof fn climbed_stops(parts: Seq<Seq<char>>, steps: Seq<Seq<char>>, n: int)
    requires
        0 <= n <= steps.len(),
        climbed(parts, steps.take(n)) is None,
    ensures
        climbed(parts, steps) is None,
    decreases steps.len() - n,
{
    if n < steps.len() {
        assert(steps.take(n + 1).drop_last() =~= steps.take(n));
        climbed_stops(parts, steps, n + 1);
    } else {
        assert(steps.take(n) =~= steps);
    }
}

fn normalize_relative_path(base_dir: &str, target: &str) -> (out: Option<String>)
    ensures
        out.deep_view() == relative_from(base_dir@, target@),
{
    let mut parts = only_not_empty(text::split_text(base_dir, '/'));
    let steps = text::split_text(target, '/');
    let ghost start = parts.deep_view();
    let ghost all = steps.deep_view();
    let mut i: usize = 0;
    while i < steps.len()
        invariant
            i <= steps.len(),
            all == steps.deep_view(),
            all == text::split_on(target@, '/'),
            start == text::split_on(base_dir@, '/').filter(is_not_empty()),
            climbed(start, all.take(i as int)) == Some(parts.deep_view()),
        decreases steps.len() - i,
    {
        let step = steps[i].as_str();
        assert(all.take(i + 1).drop_last() =~= all.take(i as int));
        assert(all.take(i + 1).last() == step@);
        let ghost before = parts.deep_view();
        if step.is_empty() || text::same(step, ".") {
        } else if text::same(step, "..") {
            if parts.len() == 0 {
                proof {
                    climbed_stops(start, all, i + 1);
                }
                return None;
            }
            parts.pop();
            assert(parts.deep_view() =~= before.drop_last());
        } else {
            parts.push(step.to_string());
            assert(parts.deep_view() =~= before.push(step@));
        }
        i = i + 1;
    }
    assert(all.take(i as int) =~= all);
    if parts.len() == 0 {
        None
    } else {
        Some(text::join(parts.as_slice(), "/"))
    }
}

/// Whether a file takes part in dependencies.
pub open spec fn is_linked(linked: Map<Seq<char>, DependencyLanguage>) -> spec_fn(
    Seq<char>,
) -> bool {
    |path: Seq<char>| linked.dom().contains(path)
}

/// The one candidate that takes part in dependencies, where there is exactly one.
pub open spec fn only_linked(
    candidates: Seq<Seq<char>>,
    linked: Map<Seq<char>, DependencyLanguage>,
) -> Option<Seq<char>> {
    let found = candidates.filter(is_linked(linked));
    if found.len() > 0 && (forall|i: int| 0 <= i < found.len() ==> #[trigger] found[i] == found[0]) {
        Some(found[0])
    } else {
        None
    }
}

fn exactly_one_existing(candidates: &Vec<String>, linked: &TextMap<DependencyLanguage>) -> (out:
    Option<String>)
    requires
        linked.wf(),
    ensures
        out.deep_view() == only_linked(candidates.deep_view(), linked@),
{
    let ghost all = candidates.deep_view();
    let ghost keep = is_linked(linked@);
    let mut found: Vec<String> = Vec::new();
    let mut i: usize = 0;
    proof {
        reveal(Seq::filter);
        assert(found.deep_view() =~= all.take(0).filter(keep));
    }
    while i < candidates.len()
        invariant
            i <= candidates.len(),
            linked.wf(),
            all == candidates.deep_view(),
            keep == is_linked(linked@),
            found.deep_view() == all.take(i as int).filter(keep),
        decreases candidates.len() - i,
    {
        let one = &candidates[i];
        let ghost before = found.deep_view();
        proof {
            reveal(Seq::filter);
            assert(all.take(i + 1).drop_last() =~= all.take(i as int));
            assert(all.take(i + 1).last() == one@);
        }
        if linked.position(one.as_str()).is_some() {
            found.push(one.clone());
            assert(found.deep_view() =~= before.push(one@));
        }
        i = i + 1;
    }
    assert(all.take(i as int) =~= all);
    let ghost there = found.deep_view();
    if found.len() == 0 {
        return None;
    }
    let mut j: usize = 1;
    while j < found.len()
        invariant
            1 <= j <= found.len(),
            there == found.deep_view(),
            there == candidates.deep_view().filter(is_linked(linked@)),
            forall|k: int| 0 <= k < j ==> #[trigger] there[k] == there[0],
        decreases found.len() - j,
    {
        assert(there[j as int] == found@[j as int]@);
        assert(there[0] == found@[0]@);
        if !text::same(found[j].as_str(), found[0].as_str()) {
            return None;
        }
        j = j + 1;
    }
    assert(there[0] == found@[0]@);
    Some(found[0].clone())
}

/// The files in which a module may be kept.
pub open spec fn module_files(module: Seq<char>) -> Seq<Seq<char>> {
    seq![module + ".rs"@, module + "/mod.rs"@]
}

fn push_module_files(candidates: &mut Vec<String>, module: &str)
    ensures
        final(candidates).deep_view() == old(candidates).deep_view() + module_files(module@),
{
    let ghost before = candidates.deep_view();
    candidates.push(with_tail(module, ".rs"));
    assert(candidates.deep_view() =~= before.push(module@ + ".rs"@));
    candidates.push(with_tail(module, "/mod.rs"));
    assert(candidates.deep_view() =~= before + module_files(module@));
}

/// The file that a module declaration leads to.
pub open spec fn module_target(
    source_path: Seq<char>,
    target: Seq<char>,
    linked: Map<Seq<char>, DependencyLanguage>,
) -> Option<Seq<char>> {
    if !is_identifier(target) {
        None
    } else {
        match child_module_base(source_path) {
            Some(base) => only_linked(module_files(append(base, target)), linked),
            None => None,
        }
    }
}

fn resolve_rust_mod(
    source_path: &str,
    target: &str,
    linked: &TextMap<DependencyLanguage>,
) -> (out: Option<String>)
    requires
        linked.wf(),
    ensures
        out.deep_view() == module_target(source_path@, target@, linked@),
{
    if !is_rust_identifier(target) {
        return None;
    }
    match rust_child_module_base(source_path) {
        Some(base) => {
            let module = append_path(base.as_str(), target);
            let mut candidates: Vec<String> = Vec::new();
            push_module_files(&mut candidates, module.as_str());
            assert(candidates.deep_view() =~= module_files(module@));
            exactly_one_existing(&candidates, linked)
        },
        None => None,
    }
}

/// A path with segments behind it.
pub open spec fn append_all(base: Seq<char>, segments: Seq<Seq<char>>) -> Seq<char>
    decreases segments.len(),
{
    if segments.len() == 0 {
        base
    } else {
        append(append_all(base, segments.drop_last()), segments.last())
    }
}

/// The files in which any of the modules along a path may be kept.
pub open spec fn files_along(base: Seq<char>, segments: Seq<Seq<char>>) -> Seq<Seq<char>>
    decreases segments.len(),
{
    if segments.len() == 0 {
        Seq::empty()
    } else {
        files_along(base, segments.drop_last()) + module_files(append_all(base, segments))
    }
}

/// The segments of a path of modules.
pub open spec fn module_segments(path: Seq<char>) -> Seq<Seq<char>> {
    text::split_parts(path, "::"@).filter(is_not_empty())
}

/// The file that a path of modules leads to, from a directory.
pub open spec fn module_path_target(
    base: Option<Seq<char>>,
    path: Seq<char>,
    linked: Map<Seq<char>, DependencyLanguage>,
) -> Option<Seq<char>> {
    let segments = module_segments(path);
    match base {
        None => None,
        Some(base) => if segments.len() == 0 || exists|i: int|
            0 <= i < segments.len() && !is_identifier(#[trigger] segments[i]) {
            None
        } else {
            only_linked(files_along(base, segments), linked)
        },
    }
}

/// The file that an import by path leads to: one that starts at the crate or at the
/// importing module, and names a single thing.
pub open spec fn use_target(
    source_path: Seq<char>,
    target: Seq<char>,
    linked: Map<Seq<char>, DependencyLanguage>,
) -> Option<Seq<char>> {
    if text::holds_part(target, "{"@) || text::holds_part(target, "}"@) || text::holds_part(
        target,
        "*"@,
    ) || text::holds_part(target, " as "@) {
        None
    } else {
        match text::without_prefix(target, "crate::"@) {
            Some(rest) => module_path_target(crate_root(source_path), rest, linked),
            None => match text::without_prefix(target, "self::"@) {
                Some(rest) => module_path_target(child_module_base(source_path), rest, linked),
                None => None,
            },
        }
    }
}

fn resolve_module_path(
    base: Option<String>,
    path: &str,
    linked: &TextMap<DependencyLanguage>,
) -> (out: Option<String>)
    requires
        linked.wf(),
    ensures
        out.deep_view() == module_path_target(base.deep_view(), path@, linked@),
{
    let base = match base {
        Some(base) => base,
        None => return None,
    };
    proof {
        reveal_strlit("::");
    }
    let segments = only_not_empty(text::split_str(path, "::"));
    let ghost all = segments.deep_view();
    if segments.len() == 0 {
        return None;
    }
    let mut module = base.clone();
    let mut candidates: Vec<String> = Vec::new();
    let mut i: usize = 0;
    assert(candidates.deep_view() =~= files_along(base@, all.take(0)));
    while i < segments.len()
        invariant
            i <= segments.len(),
            all == segments.deep_view(),
            all == module_segments(path@),
            module@ == append_all(base@, all.take(i as int)),
            candidates.deep_view() == files_along(base@, all.take(i as int)),
            forall|k: int| 0 <= k < i ==> is_identifier(#[trigger] all[k]),
        decreases segments.len() - i,
    {
        let segment = segments[i].as_str();
        assert(all[i as int] == segment@);
        assert(all.take(i + 1).drop_last() =~= all.take(i as int));
        assert(all.take(i + 1).last() == segment@);
        if !is_rust_identifier(segment) {
            return None;
        }
        module = append_path(module.as_str(), segment);
        push_module_files(&mut candidates, module.as_str());
        i = i + 1;
    }
    assert(all.take(i as int) =~= all);
    exactly_one_existing(&candidates, linked)
}

fn resolve_rust_use(
    source_path: &str,
    target: &str,
    linked: &TextMap<DependencyLanguage>,
) -> (out: Option<String>)
    requires
        linked.wf(),
    ensures
        out.deep_view() == use_target(source_path@, target@, linked@),
{
    if text::contains(target, "{") || text::contains(target, "}") || text::contains(target, "*")
        || text::contains(target, " as ") {
        return None;
    }
    if let Some(rest) = text::strip_prefix(target, "crate::") {
        return resolve_module_path(rust_crate_root(source_path), rest.as_str(), linked);
    }
    if let Some(rest) = text::strip_prefix(target, "self::") {
        return resolve_module_path(rust_child_module_base(source_path), rest.as_str(), linked);
    }
    None
}

/// The files that a relative import may mean.
pub open spec fn relative_candidates(base: Seq<char>) -> Seq<Seq<char>> {
    if text::finishes_with(base, ".ts"@) || text::finishes_with(base, ".tsx"@) {
        seq![base]
    } else {
        seq![base + ".ts"@, base + ".tsx"@, base + "/index.ts"@, base + "/index.tsx"@]
    }
}

/// The file that a relative import leads to.
pub open spec fn relative_target(
    source_path: Seq<char>,
    target: Seq<char>,
    linked: Map<Seq<char>, DependencyLanguage>,
) -> Option<Seq<char>> {
    if !text::begins_with(target, "./"@) && !text::begins_with(target, "../"@) {
        None
    } else if text::holds_part(target, "\\"@) || text::holds_part(target, "\0"@) {
        None
    } else {
        let base = match directory(source_path) {
            Some(parent) => parent,
            None => Seq::empty(),
        };
        match relative_from(base, target) {
            Some(path) => only_linked(relative_candidates(path), linked),
            None => None,
        }
    }
}

fn resolve_typescript_import(
    source_path: &str,
    target: &str,
    linked: &TextMap<DependencyLanguage>,
) -> (out: Option<String>)
    requires
        linked.wf(),
    ensures
        out.deep_view() == relative_target(source_path@, target@, linked@),
{
    if !text::starts_with(target, "./") && !text::starts_with(target, "../") {
        return None;
    }
    if text::contains(target, "\\") || text::contains(target, "\0") {
        return None;
    }
    let base_dir = match parent_dir(source_path) {
        Some(parent) => parent,
        None => String::new(),
    };
    assert(directory(source_path@) is None ==> base_dir@ =~= Seq::<char>::empty());
    match normalize_relative_path(base_dir.as_str(), target) {
        Some(path) => {
            let path = path.as_str();
            let mut candidates: Vec<String> = Vec::new();
            if text::ends_with(path, ".ts") || text::ends_with(path, ".tsx") {
                candidates.push(path.to_string());
            } else {
                candidates.push(with_tail(path, ".ts"));
                candidates.push(with_tail(path, ".tsx"));
                candidates.push(with_tail(path, "/index.ts"));
                candidates.push(with_tail(path, "/index.tsx"));
            }
            assert(candidates.deep_view() =~= relative_candidates(path@));
            exactly_one_existing(&candidates, linked)
        },
        None => None,
    }
}

/// The file that an import leads to, in a language.
pub open spec fn import_target(
    import: ParseImportRecordView,
    language: DependencyLanguage,
    linked: Map<Seq<char>, DependencyLanguage>,
) -> Option<Seq<char>> {
    let found = match language {
        DependencyLanguage::Rust => if import.kind == "mod"@ {
            module_target(import.path, import.target, linked)
        } else if import.kind == "use"@ {
            use_target(import.path, import.target, linked)
        } else {
            None
        },
        DependencyLanguage::Go => None,
        DependencyLanguage::TypeScript => relative_target(import.path, import.target, linked),
    };
    match found {
        Some(path) => if is_safe(path) {
            Some(path)
        } else {
            None
        },
        None => None,
    }
}

fn resolve_import(
    import: &ParseImportRecord,
    language: DependencyLanguage,
    linked: &TextMap<DependencyLanguage>,
) -> (out: Option<String>)
    requires
        linked.wf(),
    ensures
        out.deep_view() == import_target(import.deep_view(), language, linked@),
{
    let source = import.path.as_str();
    let target = import.target.as_str();
    let found = match language {
        DependencyLanguage::Rust => if text::same(import.kind.as_str(), "mod") {
            resolve_rust_mod(source, target, linked)
        } else if text::same(import.kind.as_str(), "use") {
            resolve_rust_use(source, target, linked)
        } else {
            None
        },
        DependencyLanguage::Go => None,
        DependencyLanguage::TypeScript => resolve_typescript_import(source, target, linked),
    };
    match found {
        Some(path) => if is_safe_repo_path(path.as_str()) {
            Some(path)
        } else {
            None
        },
        None => None,
    }
}

/// Whether a symbol is a module around an import.
pub open spec fn encloses(symbol: ParseSymbolRecordView, import: ParseImportRecordView) -> bool {
    symbol.path == import.path && symbol.kind == "module"@ && symbol.start_line
        < import.start_line && symbol.end_line >= import.end_line
}

/// Whether an import stands inside a module of its file.
pub open spec fn is_nested(
    import: ParseImportRecordView,
    symbols: Seq<ParseSymbolRecordView>,
) -> bool {
    exists|i: int| 0 <= i < symbols.len() && encloses(#[trigger] symbols[i], import)
}

fn rust_mod_import_is_nested_in_module(
    import: &ParseImportRecord,
    symbols: &Vec<ParseSymbolRecord>,
) -> (r: bool)
    ensures
        r == is_nested(import.deep_view(), symbols.deep_view()),
{
    let ghost all = symbols.deep_view();
    let mut i: usize = 0;
    while i < symbols.len()
        invariant
            i <= symbols.len(),
            all == symbols.deep_view(),
            forall|k: int| 0 <= k < i ==> !encloses(#[trigger] all[k], import.deep_view()),
        decreases symbols.len() - i,
    {
        let symbol = &symbols[i];
        assert(all[i as int] == symbol.deep_view());
        if text::same(symbol.path.as_str(), import.path.as_str()) && text::same(
            symbol.kind.as_str(),
            "module",
        ) && symbol.start_line < import.start_line && symbol.end_line >= import.end_line {
            return true;
        }
        i = i + 1;
    }
    false
}

/// The edge that an import of a report makes.
pub open spec fn edge_of(import: ParseImportRecordView, report: ParseReportView) -> Option<
    ResolvedDependencyEdgeView,
> {
    let linked = linked_files(report.files);
    if !linked.dom().contains(import.path) {
        None
    } else {
        let language = linked[import.path];
        if language == DependencyLanguage::Rust && import.kind == "mod"@ && is_nested(
            import,
            report.symbols,
        ) {
            None
        } else {
            match import_target(import, language, linked) {
                Some(target) => Some(
                    ResolvedDependencyEdgeView {
                        source_path: import.path,
                        target_path: target,
                        kind: import.kind,
                    },
                ),
                None => None,
            }
        }
    }
}

/// The edges that imports of a report make, each once, in the order of the imports.
pub open spec fn edges_found(
    imports: Seq<ParseImportRecordView>,
    report: ParseReportView,
) -> Seq<ResolvedDependencyEdgeView>
    decreases imports.len(),
{
    if imports.len() == 0 {
        Seq::empty()
    } else {
        let before = edges_found(imports.drop_last(), report);
        match edge_of(imports.last(), report) {
            Some(edge) => if before.contains(edge) {
                before
            } else {
                before.push(edge)
            },
            None => before,
        }
    }
}

/// The dependencies between the files of a report, each once, in ascending order.
pub open spec fn dependencies(report: ParseReportView) -> Seq<ResolvedDependencyEdgeView> {
    order::sorted_by(
        edges_found(report.imports, report),
        order::by_key::<ResolvedDependencyEdge>(),
    )
}

fn same_edge(a: &ResolvedDependencyEdge, b: &ResolvedDependencyEdge) -> (r: bool)
    ensures
        r == (a.deep_view() == b.deep_view()),
{
    text::same(a.source_path.as_str(), b.source_path.as_str()) && text::same(
        a.target_path.as_str(),
        b.target_path.as_str(),
    ) && text::same(a.kind.as_str(), b.kind.as_str())
}

fn has_edge(edges: &Vec<ResolvedDependencyEdge>, edge: &ResolvedDependencyEdge) -> (r: bool)
    ensures
        r == edges.deep_view().contains(edge.deep_view()),
{
    let ghost all = edges.deep_view();
    let mut i: usize = 0;
    while i < edges.len()
        invariant
            i <= edges.len(),
            all == edges.deep_view(),
            forall|k: int| 0 <= k < i ==> #[trigger] all[k] != edge.deep_view(),
        decreases edges.len() - i,
    {
        assert(all[i as int] == edges@[i as int].deep_view());
        if same_edge(&edges[i], edge) {
            return true;
        }
        i = i + 1;
    }
    false
}

fn edge_from_import(
    import: &ParseImportRecord,
    report: &ParseReport,
    linked: &TextMap<DependencyLanguage>,
) -> (out: Option<ResolvedDependencyEdge>)
    requires
        linked.wf(),
        linked@ == linked_files(report.deep_view().files),
    ensures
        out.deep_view() == edge_of(import.deep_view(), report.deep_view()),
{
    let language = match linked.get(import.path.as_str()) {
        Some(language) => *language,
        None => return None,
    };
    if language == DependencyLanguage::Rust && text::same(import.kind.as_str(), "mod")
        && rust_mod_import_is_nested_in_module(import, &report.symbols) {
        return None;
    }
    match resolve_import(import, language, linked) {
        Some(target_path) => Some(
            ResolvedDependencyEdge {
                source_path: import.path.clone(),
                target_path,
                kind: import.kind.clone(),
            },
        ),
        None => None,
    }
}

/// The dependencies between the files of a report, each once, in ascending order.
pub fn resolve_dependencies(report: &ParseReport) -> (out: Vec<ResolvedDependencyEdge>)
    ensures
        out.deep_view() == dependencies(report.deep_view()),
{
    let ghost whole = report.deep_view();
    let ghost all = report.imports.deep_view();
    let linked = linked_files_of(&report.files);
    let mut edges: Vec<ResolvedDependencyEdge> = Vec::new();
    let mut i: usize = 0;
    assert(edges.deep_view() =~= edges_found(all.take(0), whole));
    while i < report.imports.len()
        invariant
            i <= report.imports.len(),
            whole == report.deep_view(),
            all == report.imports.deep_view(),
            linked.wf(),
            linked@ == linked_files(whole.files),
            edges.deep_view() == edges_found(all.take(i as int), whole),
        decreases report.imports.len() - i,
    {
        let import = &report.imports[i];
        assert(all.take(i + 1).drop_last() =~= all.take(i as int));
        assert(all.take(i + 1).last() == import.deep_view());
        if let Some(edge) = edge_from_import(import, report, &linked) {
            if !has_edge(&edges, &edge) {
                let ghost before = edges.deep_view();
                edges.push(edge);
                assert(edges.deep_view() =~= before.push(edge.deep_view()));
            }
        }
        i = i + 1;
    }
    assert(all.take(i as int) =~= all);
    order::sort(edges)
}

proof fn found_edges_are_distinct(imports: Seq<ParseImportRecordView>, report: ParseReportView)
    ensures
        edges_found(imports, report).no_duplicates(),
    decreases imports.len(),
{
    if imports.len() > 0 {
        let before = edges_found(imports.drop_last(), report);
        found_edges_are_distinct(imports.drop_last(), report);
        if let Some(edge) = edge_of(imports.last(), report) {
            if !before.contains(edge) {
                let after = before.push(edge);
                assert forall|i: int, j: int|
                    0 <= i < after.len() && 0 <= j < after.len() && i != j implies after[i]
                    != after[j] by {
                    if i < before.len() && j < before.len() {
                        assert(before[i] != before[j]);
                    } else if i < before.len() {
                        assert(before.contains(before[i]));
                    } else if j < before.len() {
                        assert(before.contains(before[j]));
                    }
                }
            }
        }
    }
}

proof fn edges_with_one_key_are_equal(
    a: ResolvedDependencyEdgeView,
    b: ResolvedDependencyEdgeView,
)
    requires
        !order::by_key::<ResolvedDependencyEdge>()(a, b),
        !order::by_key::<ResolvedDependencyEdge>()(b, a),
    ensures
        a == b,
{
    reveal_with_fuel(order::key_lt_from, 4);
    text::text_lt_total(a.source_path, b.source_path);
    text::text_lt_total(a.target_path, b.target_path);
    text::text_lt_total(a.kind, b.kind);
}

/// The dependencies of a report ascend by source, target and kind, so none occurs twice.
pub proof fn dependencies_ascend_strictly(report: ParseReportView, i: int, j: int)
    requires
        0 <= i < j < dependencies(report).len(),
    ensures
        order::by_key::<ResolvedDependencyEdge>()(dependencies(report)[i], dependencies(report)[j]),
{
    let lt = order::by_key::<ResolvedDependencyEdge>();
    let found = edges_found(report.imports, report);
    let sorted = dependencies(report);
    found_edges_are_distinct(report.imports, report);
    order::by_key_is_strict_weak::<ResolvedDependencyEdge>();
    order::sorted_by_is_sorted(found, lt);
    order::sorted_by_permutes(found, lt);
    if !lt(sorted[i], sorted[j]) {
        assert(!lt(sorted[j], sorted[i]));
        edges_with_one_key_are_equal(sorted[i], sorted[j]);
        found.lemma_multiset_has_no_duplicates();
        sorted.lemma_multiset_has_no_duplicates_conv();
        assert(sorted[i] != sorted[j]);
    }
}

proof fn only_linked_is_linked(
    candidates: Seq<Seq<char>>,
    linked: Map<Seq<char>, DependencyLanguage>,
)
    ensures
        only_linked(candidates, linked) matches Some(path) ==> linked.dom().contains(path),
{
    let found = candidates.filter(is_linked(linked));
    if found.len() > 0 {
        candidates.lemma_filter_pred(is_linked(linked), 0);
    }
}

proof fn target_is_linked(
    import: ParseImportRecordView,
    language: DependencyLanguage,
    linked: Map<Seq<char>, DependencyLanguage>,
)
    ensures
        import_target(import, language, linked) matches Some(path) ==> linked.dom().contains(path),
{
    assert forall|candidates: Seq<Seq<char>>| #[trigger]
        only_linked(candidates, linked) is Some implies linked.dom().contains(
        only_linked(candidates, linked)->0,
    ) by {
        only_linked_is_linked(candidates, linked);
    }
}

proof fn found_edges_join_linked_files(
    imports: Seq<ParseImportRecordView>,
    report: ParseReportView,
    edge: ResolvedDependencyEdgeView,
)
    requires
        edges_found(imports, report).contains(edge),
    ensures
        linked_files(report.files).dom().contains(edge.source_path),
        linked_files(report.files).dom().contains(edge.target_path),
    decreases imports.len(),
{
    if imports.len() > 0 {
        let before = edges_found(imports.drop_last(), report);
        if before.contains(edge) {
            found_edges_join_linked_files(imports.drop_last(), report, edge);
        } else {
            let linked = linked_files(report.files);
            let import = imports.last();
            target_is_linked(import, linked[import.path], linked);
        }
    }
}

/// Every dependency of a report joins two files of the report that are parsed and whose
/// paths stay inside the repository.
pub proof fn dependencies_join_linked_files(report: ParseReportView, i: int)
    requires
        0 <= i < dependencies(report).len(),
    ensures
        linked_files(report.files).dom().contains(dependencies(report)[i].source_path),
        linked_files(report.files).dom().contains(dependencies(report)[i].target_path),
{
    let lt = order::by_key::<ResolvedDependencyEdge>();
    let found = edges_found(report.imports, report);
    let edge = dependencies(report)[i];
    order::by_key_is_strict_weak::<ResolvedDependencyEdge>();
    order::sorted_by_permutes(found, lt);
    assert(dependencies(report).contains(edge));
    order::contains_by_multiset(dependencies(report), found, edge);
    found_edges_join_linked_files(report.imports, report, edge);
}

/// A file takes part in dependencies only where it is parsed and its path is safe.
pub proof fn linked_files_are_parsed(files: Seq<ParseFileRecordView>, path: Seq<char>)
    requires
        linked_files(files).dom().contains(path),
    ensures
        is_safe(path),
        exists|i: int|
            0 <= i < files.len() && (#[trigger] files[i]).path == path && files[i].status
                == ParseFileStatus::Parsed,
    decreases files.len(),
{
    if files.len() > 0 {
        let front = files.drop_last();
        if linked_language(files.last()) is Some && files.last().path == path {
            assert(files[files.len() - 1].path == path);
        } else {
            linked_files_are_parsed(front, path);
            let i = choose|i: int|
                0 <= i < front.len() && (#[trigger] front[i]).path == path && front[i].status
                    == ParseFileStatus::Parsed;
            assert(files[i].path == path);
        }
    }
}

} // verus!
