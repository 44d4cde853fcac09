//! What holds of every file that a scan finds.

use vstd::prelude::*;

use crate::paths;
use crate::scan;
use crate::scan::classify;
use crate::scan::classify::FileObservation;
use crate::scan::summary;
use crate::scan::{ContentKind, FileRecordView, ScanReportView, ScanSummary};
use crate::text;

verus! {

/// The bytes of a file that are read at most.
pub open spec fn most_bytes() -> int {
    8 * 1024 * 1024int
}

/// As much of the contents of a file as is looked at.
pub open spec fn looked_at(bytes: Seq<u8>) -> Seq<u8> {
    if bytes.len() > most_bytes() {
        bytes.take(most_bytes())
    } else {
        bytes
    }
}

/// The number of warnings about a path.
pub open spec fn path_warnings(used_replacement: bool) -> int {
    if used_replacement {
        1
    } else {
        0
    }
}

/// Contents with a NUL byte are binary; others are text where they are UTF-8, and unknown where
/// they are not. Whatever they are, the size and the path stay.
pub proof fn contents_tell_text_from_binary(
    path: Seq<char>,
    used_replacement: bool,
    is_symlink: bool,
    byte_size: u64,
    bytes: Vec<u8>,
)
    ensures
        ({
            let record = classify::classified(
                path,
                used_replacement,
                is_symlink,
                FileObservation::Contents { byte_size, bytes },
            );
            let is_binary = exists|i: int| 0 <= i < bytes@.len() && #[trigger] bytes@[i] == 0;
            let is_text = vstd::utf8::valid_utf8(looked_at(bytes@));
            &&& record.path == path
            &&& record.byte_size == Some(byte_size)
            &&& record.is_symlink == is_symlink
            &&& record.content == ContentKind::Binary <==> is_binary
            &&& record.content == ContentKind::Text <==> !is_binary && is_text
            &&& record.content == ContentKind::Unknown <==> !is_binary && !is_text
        }),
{
}

/// The lines of a text are counted: one for each line feed, and one more where something follows
/// the last. Those of a text that is longer than what is read are not, and a warning says so; nor
/// are those of what is no text.
pub proof fn contents_have_their_lines(
    path: Seq<char>,
    used_replacement: bool,
    is_symlink: bool,
    byte_size: u64,
    bytes: Vec<u8>,
)
    requires
        text::laws::line_feeds(vstd::utf8::decode_utf8(looked_at(bytes@))) < u64::MAX,
    ensures
        ({
            let record = classify::classified(
                path,
                used_replacement,
                is_symlink,
                FileObservation::Contents { byte_size, bytes },
            );
            let contents = vstd::utf8::decode_utf8(bytes@);
            let known = path_warnings(used_replacement);
            &&& record.content != ContentKind::Text ==> record.line_count is None
            &&& record.content == ContentKind::Text && bytes@.len() > most_bytes() ==> {
                &&& record.line_count is None
                &&& record.warnings.len() == known + 1
                &&& record.warnings.last().code == "line_count_skipped"@
            }
            &&& record.content == ContentKind::Text && bytes@.len() <= most_bytes() ==> {
                &&& record.warnings.len() == known
                &&& record.line_count matches Some(n)
                &&& n == text::laws::line_feeds(contents) + (if contents.len() > 0
                    && contents.last() != '\n' {
                    1int
                } else {
                    0
                })
            }
            &&& record.content == ContentKind::Unknown ==> record.warnings.len() == known + 1
                && record.warnings.last().code == "unsupported_encoding"@
            &&& record.content == ContentKind::Binary ==> record.warnings.len() == known
        }),
{
    let limit = scan::MAX_TEXT_READ_BYTES as int;
    assert(limit == most_bytes());
    text::laws::lines_are_ended_by_line_feeds(vstd::utf8::decode_utf8(looked_at(bytes@)));
}

/// The code of the warning about a file whose contents could not be seen.
pub open spec fn warns(observation: FileObservation, code: Seq<char>) -> bool {
    match observation {
        FileObservation::TargetUnreadable { .. } => code == "symlink_target_unreadable"@,
        FileObservation::TargetOutside => code == "symlink_target_outside_root"@,
        FileObservation::MetadataFailed { .. } => code == "metadata_failed"@,
        FileObservation::OpenFailed { .. } => code == "read_failed"@,
        FileObservation::ReadFailed { .. } => code == "read_failed"@,
        FileObservation::Contents { .. } => false,
    }
}

/// The size of a file, where it could be seen.
pub open spec fn seen_size(observation: FileObservation) -> Option<u64> {
    match observation {
        FileObservation::OpenFailed { byte_size, .. } => Some(byte_size),
        FileObservation::ReadFailed { byte_size, .. } => Some(byte_size),
        FileObservation::Contents { byte_size, .. } => Some(byte_size),
        _ => None,
    }
}

/// A file whose contents could not be seen is of an unknown kind, without lines, and has a warning
/// that says why.
pub proof fn unseen_contents_are_unknown(
    path: Seq<char>,
    used_replacement: bool,
    is_symlink: bool,
    observation: FileObservation,
)
    requires
        !(observation is Contents),
    ensures
        ({
            let record = classify::classified(path, used_replacement, is_symlink, observation);
            &&& record.path == path
            &&& record.is_symlink == is_symlink
            &&& record.content == ContentKind::Unknown
            &&& record.line_count is None
            &&& record.byte_size == seen_size(observation)
            &&& record.warnings.len() == path_warnings(used_replacement) + 1
            &&& warns(observation, record.warnings.last().code)
        }),
{
}

/// A path with replaced characters has a warning before all others.
pub proof fn replaced_characters_are_warned_of(
    path: Seq<char>,
    is_symlink: bool,
    observation: FileObservation,
)
    ensures
        classify::classified(path, true, is_symlink, observation).warnings[0].code
            == "unsupported_path_encoding"@,
        ({
            let (a, b) = (
                classify::classified(path, true, is_symlink, observation),
                classify::classified(path, false, is_symlink, observation),
            );
            &&& a.warnings.len() == b.warnings.len() + 1
            &&& a.content == b.content
            &&& a.line_count == b.line_count
            &&& a.byte_size == b.byte_size
        }),
{
}

/// What a path says of a file does not depend on what is seen of it.
pub proof fn paths_speak_for_themselves(
    path: Seq<char>,
    used_replacement: bool,
    is_symlink: bool,
    observation: FileObservation,
)
    ensures
        ({
            let record = classify::classified(path, used_replacement, is_symlink, observation);
            &&& record.extension == scan::extension_of(path)
            &&& record.language == scan::language_of(path)
            &&& record.is_vendor == scan::in_vendor_directory(path)
            &&& record.is_generated == scan::is_generated(path)
        }),
{
}

/// Whether a path is a directory, or none, and a name in it.
pub open spec fn is_in(path: Seq<char>, directory: Seq<char>, name: Seq<char>) -> bool {
    &&& path == directory + name
    &&& directory.len() == 0 || directory.last() == '/'
    &&& name.len() > 0
    &&& !name.contains('/')
    &&& name != "."@
    &&& name != ".."@
}

proof fn names_come_last(path: Seq<char>, directory: Seq<char>, name: Seq<char>)
    requires
        is_in(path, directory, name),
    ensures
        scan::file_name(path) == Some(name),
{
    let keep = paths::is_segment();
    if directory.len() == 0 {
        text::laws::pieces_come_apart(directory, name, '/');
        assert(path =~= name);
        let one = seq![name];
        assert(one.drop_last() =~= Seq::empty());
        reveal(Seq::filter);
        assert(one.filter(keep).last() == name);
    } else {
        let front = directory.drop_last();
        text::laws::pieces_come_apart(front, name, '/');
        assert(front.push('/') =~= directory);
        let pieces = text::split_on(front, '/');
        let all = pieces.push(name);
        assert(all.drop_last() =~= pieces);
        reveal(Seq::filter);
        assert(all.filter(keep) == pieces.filter(keep).push(name));
    }
}

proof fn last_dot(stem: Seq<char>, extension: Seq<char>)
    requires
        !extension.contains('.'),
    ensures
        text::last_index(stem.push('.') + extension, '.') == Some(stem.len() as int),
    decreases extension.len(),
{
    let whole = stem.push('.') + extension;
    if extension.len() == 0 {
        assert(whole =~= stem.push('.'));
    } else {
        let front = extension.drop_last();
        assert forall|i: int| 0 <= i < front.len() implies front[i] != '.' by {
            assert(extension[i] == front[i]);
        }
        assert(extension.contains(extension.last()));
        last_dot(stem, front);
        assert(whole.drop_last() =~= stem.push('.') + front);
    }
}

/// The extension of a file is what stands behind the last dot of its name, in lower case, unless
/// nothing stands before the dot.
pub proof fn extensions_follow_the_last_dot(
    path: Seq<char>,
    directory: Seq<char>,
    stem: Seq<char>,
    extension: Seq<char>,
)
    requires
        is_in(path, directory, stem.push('.') + extension),
        !extension.contains('.'),
    ensures
        stem.len() > 0 ==> scan::extension_of(path) == Some(text::lowered(extension)),
        stem.len() == 0 ==> scan::extension_of(path) is None,
{
    let name = stem.push('.') + extension;
    names_come_last(path, directory, name);
    last_dot(stem, extension);
    assert(name.skip(stem.len() as int + 1) =~= extension);
}

proof fn no_dot(name: Seq<char>)
    requires
        !name.contains('.'),
    ensures
        text::last_index(name, '.') is None,
    decreases name.len(),
{
    if name.len() > 0 {
        let front = name.drop_last();
        assert forall|i: int| 0 <= i < front.len() implies front[i] != '.' by {
            assert(name[i] == front[i]);
        }
        assert(name.contains(name.last()));
        no_dot(front);
    }
}

/// A file whose name has no dot has no extension.
pub proof fn names_without_a_dot_have_no_extension(
    path: Seq<char>,
    directory: Seq<char>,
    name: Seq<char>,
)
    requires
        is_in(path, directory, name),
        !name.contains('.'),
    ensures
        scan::extension_of(path) is None,
{
    names_come_last(path, directory, name);
    no_dot(name);
}

/// Whether files with an extension are written in a language.
pub open spec fn speaks(extension: Seq<char>, language: Seq<char>) -> bool {
    ||| language == "Shell"@ && (extension == "bash"@ || extension == "sh"@ || extension == "zsh"@)
    ||| language == "C"@ && extension == "c"@
    ||| language == "C++"@ && (extension == "cc"@ || extension == "cpp"@ || extension == "cxx"@ || extension == "hpp"@ || extension == "hh"@ || extension == "hxx"@)
    ||| language == "C#"@ && extension == "cs"@
    ||| language == "CSS"@ && extension == "css"@
    ||| language == "Go"@ && extension == "go"@
    ||| language == "C/C++ Header"@ && extension == "h"@
    ||| language == "HTML"@ && (extension == "htm"@ || extension == "html"@)
    ||| language == "Java"@ && extension == "java"@
    ||| language == "JavaScript"@ && (extension == "js"@ || extension == "mjs"@ || extension == "cjs"@)
    ||| language == "JSON"@ && extension == "json"@
    ||| language == "JavaScript JSX"@ && extension == "jsx"@
    ||| language == "Kotlin"@ && (extension == "kt"@ || extension == "kts"@)
    ||| language == "Markdown"@ && (extension == "md"@ || extension == "markdown"@)
    ||| language == "PHP"@ && extension == "php"@
    ||| language == "Protocol Buffers"@ && extension == "proto"@
    ||| language == "PowerShell"@ && extension == "ps1"@
    ||| language == "Python"@ && extension == "py"@
    ||| language == "Ruby"@ && extension == "rb"@
    ||| language == "Rust"@ && extension == "rs"@
    ||| language == "Scala"@ && extension == "scala"@
    ||| language == "Sass"@ && extension == "scss"@
    ||| language == "SQL"@ && extension == "sql"@
    ||| language == "Swift"@ && extension == "swift"@
    ||| language == "TOML"@ && extension == "toml"@
    ||| language == "TypeScript"@ && extension == "ts"@
    ||| language == "TypeScript JSX"@ && extension == "tsx"@
    ||| language == "XML"@ && extension == "xml"@
    ||| language == "YAML"@ && (extension == "yaml"@ || extension == "yml"@)
}

proof fn letters_of_extensions()
    ensures
        "bash"@.len() == 4,
        "bash"@[0] == 'b',
        "bash"@[1] == 'a',
        "bash"@[2] == 's',
        "bash"@[3] == 'h',
        "sh"@.len() == 2,
        "sh"@[0] == 's',
        "sh"@[1] == 'h',
        "zsh"@.len() == 3,
        "zsh"@[0] == 'z',
        "zsh"@[1] == 's',
        "zsh"@[2] == 'h',
        "c"@.len() == 1,
        "c"@[0] == 'c',
        "cc"@.len() == 2,
        "cc"@[0] == 'c',
        "cc"@[1] == 'c',
        "cpp"@.len() == 3,
        "cpp"@[0] == 'c',
        "cpp"@[1] == 'p',
        "cpp"@[2] == 'p',
        "cxx"@.len() == 3,
        "cxx"@[0] == 'c',
        "cxx"@[1] == 'x',
        "cxx"@[2] == 'x',
        "hpp"@.len() == 3,
        "hpp"@[0] == 'h',
        "hpp"@[1] == 'p',
        "hpp"@[2] == 'p',
        "hh"@.len() == 2,
        "hh"@[0] == 'h',
        "hh"@[1] == 'h',
        "hxx"@.len() == 3,
        "hxx"@[0] == 'h',
        "hxx"@[1] == 'x',
        "hxx"@[2] == 'x',
        "cs"@.len() == 2,
        "cs"@[0] == 'c',
        "cs"@[1] == 's',
        "css"@.len() == 3,
        "css"@[0] == 'c',
        "css"@[1] == 's',
        "css"@[2] == 's',
        "go"@.len() == 2,
        "go"@[0] == 'g',
        "go"@[1] == 'o',
        "h"@.len() == 1,
        "h"@[0] == 'h',
        "htm"@.len() == 3,
        "htm"@[0] == 'h',
        "htm"@[1] == 't',
        "htm"@[2] == 'm',
        "html"@.len() == 4,
        "html"@[0] == 'h',
        "html"@[1] == 't',
        "html"@[2] == 'm',
        "html"@[3] == 'l',
        "java"@.len() == 4,
        "java"@[0] == 'j',
        "java"@[1] == 'a',
        "java"@[2] == 'v',
        "java"@[3] == 'a',
        "js"@.len() == 2,
        "js"@[0] == 'j',
        "js"@[1] == 's',
        "mjs"@.len() == 3,
        "mjs"@[0] == 'm',
        "mjs"@[1] == 'j',
        "mjs"@[2] == 's',
        "cjs"@.len() == 3,
        "cjs"@[0] == 'c',
        "cjs"@[1] == 'j',
        "cjs"@[2] == 's',
        "json"@.len() == 4,
        "json"@[0] == 'j',
        "json"@[1] == 's',
        "json"@[2] == 'o',
        "json"@[3] == 'n',
        "jsx"@.len() == 3,
        "jsx"@[0] == 'j',
        "jsx"@[1] == 's',
        "jsx"@[2] == 'x',
        "kt"@.len() == 2,
        "kt"@[0] == 'k',
        "kt"@[1] == 't',
        "kts"@.len() == 3,
        "kts"@[0] == 'k',
        "kts"@[1] == 't',
        "kts"@[2] == 's',
        "md"@.len() == 2,
        "md"@[0] == 'm',
        "md"@[1] == 'd',
        "markdown"@.len() == 8,
        "markdown"@[0] == 'm',
        "markdown"@[1] == 'a',
        "markdown"@[2] == 'r',
        "markdown"@[3] == 'k',
        "markdown"@[4] == 'd',
        "markdown"@[5] == 'o',
        "markdown"@[6] == 'w',
        "markdown"@[7] == 'n',
        "php"@.len() == 3,
        "php"@[0] == 'p',
        "php"@[1] == 'h',
        "php"@[2] == 'p',
        "proto"@.len() == 5,
        "proto"@[0] == 'p',
        "proto"@[1] == 'r',
        "proto"@[2] == 'o',
        "proto"@[3] == 't',
        "proto"@[4] == 'o',
        "ps1"@.len() == 3,
        "ps1"@[0] == 'p',
        "ps1"@[1] == 's',
        "ps1"@[2] == '1',
        "py"@.len() == 2,
        "py"@[0] == 'p',
        "py"@[1] == 'y',
        "rb"@.len() == 2,
        "rb"@[0] == 'r',
        "rb"@[1] == 'b',
        "rs"@.len() == 2,
        "rs"@[0] == 'r',
        "rs"@[1] == 's',
        "scala"@.len() == 5,
        "scala"@[0] == 's',
        "scala"@[1] == 'c',
        "scala"@[2] == 'a',
        "scala"@[3] == 'l',
        "scala"@[4] == 'a',
        "scss"@.len() == 4,
        "scss"@[0] == 's',
        "scss"@[1] == 'c',
        "scss"@[2] == 's',
        "scss"@[3] == 's',
        "sql"@.len() == 3,
        "sql"@[0] == 's',
        "sql"@[1] == 'q',
        "sql"@[2] == 'l',
        "swift"@.len() == 5,
        "swift"@[0] == 's',
        "swift"@[1] == 'w',
        "swift"@[2] == 'i',
        "swift"@[3] == 'f',
        "swift"@[4] == 't',
        "toml"@.len() == 4,
        "toml"@[0] == 't',
        "toml"@[1] == 'o',
        "toml"@[2] == 'm',
        "toml"@[3] == 'l',
        "ts"@.len() == 2,
        "ts"@[0] == 't',
        "ts"@[1] == 's',
        "tsx"@.len() == 3,
        "tsx"@[0] == 't',
        "tsx"@[1] == 's',
        "tsx"@[2] == 'x',
        "xml"@.len() == 3,
        "xml"@[0] == 'x',
        "xml"@[1] == 'm',
        "xml"@[2] == 'l',
        "yaml"@.len() == 4,
        "yaml"@[0] == 'y',
        "yaml"@[1] == 'a',
        "yaml"@[2] == 'm',
        "yaml"@[3] == 'l',
        "yml"@.len() == 3,
        "yml"@[0] == 'y',
        "yml"@[1] == 'm',
        "yml"@[2] == 'l',
{
    reveal_strlit("bash");
    reveal_strlit("sh");
    reveal_strlit("zsh");
    reveal_strlit("c");
    reveal_strlit("cc");
    reveal_strlit("cpp");
    reveal_strlit("cxx");
    reveal_strlit("hpp");
    reveal_strlit("hh");
    reveal_strlit("hxx");
    reveal_strlit("cs");
    reveal_strlit("css");
    reveal_strlit("go");
    reveal_strlit("h");
    reveal_strlit("htm");
    reveal_strlit("html");
    reveal_strlit("java");
    reveal_strlit("js");
    reveal_strlit("mjs");
    reveal_strlit("cjs");
    reveal_strlit("json");
    reveal_strlit("jsx");
    reveal_strlit("kt");
    reveal_strlit("kts");
    reveal_strlit("md");
    reveal_strlit("markdown");
    reveal_strlit("php");
    reveal_strlit("proto");
    reveal_strlit("ps1");
    reveal_strlit("py");
    reveal_strlit("rb");
    reveal_strlit("rs");
    reveal_strlit("scala");
    reveal_strlit("scss");
    reveal_strlit("sql");
    reveal_strlit("swift");
    reveal_strlit("toml");
    reveal_strlit("ts");
    reveal_strlit("tsx");
    reveal_strlit("xml");
    reveal_strlit("yaml");
    reveal_strlit("yml");
}

proof fn extensions_have_one_language(extension: Seq<char>, language: Seq<char>)
    requires
        speaks(extension, language),
    ensures
        scan::language_of_extension(extension) == Some(language),
{
    letters_of_extensions();
}

/// A file whose name has a dot is in the language of its extension.
pub proof fn extensions_tell_the_language(
    path: Seq<char>,
    directory: Seq<char>,
    stem: Seq<char>,
    extension: Seq<char>,
    language: Seq<char>,
)
    requires
        is_in(path, directory, stem.push('.') + extension),
        stem.len() > 0,
        !extension.contains('.'),
        speaks(text::lowered(extension), language),
    ensures
        scan::language_of(path) == Some(language),
{
    let name = stem.push('.') + extension;
    names_come_last(path, directory, name);
    extensions_follow_the_last_dot(path, directory, stem, extension);
    extensions_have_one_language(text::lowered(extension), language);
    named_files_have_no_dot(name, stem.len() as int);
}

proof fn named_files_have_no_dot(name: Seq<char>, i: int)
    requires
        0 <= i < name.len(),
        name[i] == '.',
    ensures
        name != "Dockerfile"@,
        name != "Containerfile"@,
        name != "Makefile"@,
{
    reveal_strlit("Dockerfile");
    reveal_strlit("Containerfile");
    reveal_strlit("Makefile");
    assert(forall|k: int| 0 <= k < "Dockerfile"@.len() ==> "Dockerfile"@[k] != '.');
    assert(forall|k: int| 0 <= k < "Containerfile"@.len() ==> "Containerfile"@[k] != '.');
    assert(forall|k: int| 0 <= k < "Makefile"@.len() ==> "Makefile"@[k] != '.');
}

/// A file in no language that has an extension has one that is of none.
pub proof fn other_extensions_have_no_language(
    path: Seq<char>,
    directory: Seq<char>,
    stem: Seq<char>,
    extension: Seq<char>,
)
    requires
        is_in(path, directory, stem.push('.') + extension),
        stem.len() > 0,
        !extension.contains('.'),
        forall|language: Seq<char>| !#[trigger] speaks(text::lowered(extension), language),
    ensures
        scan::language_of(path) is None,
{
    let name = stem.push('.') + extension;
    names_come_last(path, directory, name);
    extensions_follow_the_last_dot(path, directory, stem, extension);
    named_files_have_no_dot(name, stem.len() as int);
    if let Some(language) = scan::language_of_extension(text::lowered(extension)) {
        assert(speaks(text::lowered(extension), language));
    }
}

/// A few names without a dot have a language of their own.
pub proof fn some_names_tell_the_language(path: Seq<char>, directory: Seq<char>, name: Seq<char>)
    requires
        is_in(path, directory, name),
        !name.contains('.'),
    ensures
        name == "Dockerfile"@ || name == "Containerfile"@ ==> scan::language_of(path) == Some(
            "Dockerfile"@,
        ),
        name == "Makefile"@ ==> scan::language_of(path) == Some("Makefile"@),
        name != "Dockerfile"@ && name != "Containerfile"@ && name != "Makefile"@
            ==> scan::language_of(path) is None,
{
    names_come_last(path, directory, name);
    names_without_a_dot_have_no_extension(path, directory, name);
    reveal_strlit("Dockerfile");
    reveal_strlit("Containerfile");
    reveal_strlit("Makefile");
    assert("Dockerfile"@.len() == 10);
    assert("Containerfile"@.len() == 13);
    assert("Makefile"@.len() == 8);
}

/// Whether a directory of this name holds the code of others.
pub open spec fn is_foreign(word: Seq<char>) -> bool {
    ||| word == "vendor"@
    ||| word == "external"@
    ||| word == "node_modules"@
    ||| word == "third-party"@
    ||| word == "third_party"@
}

/// Whether a directory of this name holds code that was not written by hand.
pub open spec fn is_produced(word: Seq<char>) -> bool {
    ||| word == "build"@
    ||| word == "codegen"@
    ||| word == "dist"@
    ||| word == "gen"@
    ||| word == "generated"@
}

proof fn words_are_plain(word: Seq<char>)
    requires
        is_foreign(word) || is_produced(word),
    ensures
        word.len() > 0,
        !text::is_white(word[0]),
        !text::is_white(word.last()),
        text::lowered(word) == word,
        !word.contains('/'),
{
    reveal_strlit("vendor");
    reveal_strlit("external");
    reveal_strlit("node_modules");
    reveal_strlit("third-party");
    reveal_strlit("third_party");
    reveal_strlit("build");
    reveal_strlit("codegen");
    reveal_strlit("dist");
    reveal_strlit("gen");
    reveal_strlit("generated");
    assert(text::lowered(word) =~= word);
}

/// Whether `word` is one of the names on a path.
pub open spec fn is_on(path: Seq<char>, before: Seq<char>, word: Seq<char>, after: Seq<char>) -> bool {
    &&& path == before + word + after
    &&& before.len() == 0 || before.last() == '/'
    &&& after.len() == 0 || after[0] == '/'
}

pub proof fn names_are_pieces(
    path: Seq<char>,
    before: Seq<char>,
    word: Seq<char>,
    after: Seq<char>,
) -> (k: int)
    requires
        is_on(path, before, word, after),
        !word.contains('/'),
    ensures
        0 <= k < text::split_on(path, '/').len(),
        text::split_on(path, '/')[k] == word,
{
    text::laws::pieces_come_apart(before, word, '/');
    let tail = word + after;
    if after.len() > 0 {
        let rest = after.drop_first();
        text::laws::pieces_of_both_sides(word, rest, '/');
        assert(word.push('/') + rest =~= tail);
    } else {
        assert(tail =~= word);
    }
    assert(text::split_on(tail, '/')[0] == word);
    text::split_on_not_empty(tail, '/');
    if before.len() > 0 {
        let front = before.drop_last();
        text::laws::pieces_of_both_sides(front, tail, '/');
        assert(front.push('/') + tail =~= path);
        text::split_on(front, '/').len() as int
    } else {
        assert(path =~= tail);
        0
    }
}

/// What lies in or below a directory of others is the code of others; white space around the name
/// does not matter, nor does its case.
pub proof fn code_in_foreign_directories_is_vendored(
    path: Seq<char>,
    before: Seq<char>,
    name: Seq<char>,
    after: Seq<char>,
)
    requires
        is_on(path, before, name, after),
        name.len() > 0,
        !name.contains('/'),
        is_foreign(text::lowered(text::trimmed(name))),
    ensures
        scan::in_vendor_directory(path),
{
    let k = names_are_pieces(path, before, name, after);
    assert(text::split_on(path, '/')[k].len() > 0);
}

/// What lies in or below a directory named so is the code of others.
pub proof fn foreign_names_mark_vendored_code(
    path: Seq<char>,
    before: Seq<char>,
    word: Seq<char>,
    after: Seq<char>,
)
    requires
        is_on(path, before, word, after),
        is_foreign(word),
    ensures
        scan::in_vendor_directory(path),
{
    words_are_plain(word);
    let none = Seq::<char>::empty();
    text::trimming_leaves_what_is_inside(none, word, none);
    assert(none + word + none =~= word);
    code_in_foreign_directories_is_vendored(path, before, word, after);
}

/// Code is that of others only where a name on its path says so.
pub proof fn vendored_code_is_in_foreign_directories(path: Seq<char>) -> (k: int)
    requires
        scan::in_vendor_directory(path),
    ensures
        0 <= k < text::split_on(path, '/').len(),
        is_foreign(text::lowered(text::trimmed(text::split_on(path, '/')[k]))),
{
    let parts = text::split_on(path, '/');
    choose|k: int|
        0 <= k < parts.len() && (#[trigger] parts[k]).len() > 0 && scan::is_vendor_word(
            scan::component_word(parts[k]),
        )
}

/// What lies in or below a directory of produced code is generated.
pub proof fn code_in_produced_directories_is_generated(
    path: Seq<char>,
    before: Seq<char>,
    name: Seq<char>,
    after: Seq<char>,
)
    requires
        is_on(path, before, name, after),
        name.len() > 0,
        !name.contains('/'),
        is_produced(text::lowered(text::trimmed(name))),
    ensures
        scan::is_generated(path),
{
    let k = names_are_pieces(path, before, name, after);
    assert(text::split_on(path, '/')[k].len() > 0);
    assert(scan::in_generated_directory(path));
}

/// What lies in or below a directory named so is generated.
pub proof fn produced_names_mark_generated_code(
    path: Seq<char>,
    before: Seq<char>,
    word: Seq<char>,
    after: Seq<char>,
)
    requires
        is_on(path, before, word, after),
        is_produced(word),
    ensures
        scan::is_generated(path),
{
    words_are_plain(word);
    let none = Seq::<char>::empty();
    text::trimming_leaves_what_is_inside(none, word, none);
    assert(none + word + none =~= word);
    code_in_produced_directories_is_generated(path, before, word, after);
}

/// Whether a name, in lower case, marks generated code.
pub open spec fn is_marked(name: Seq<char>) -> bool {
    ||| exists|a: Seq<char>, b: Seq<char>| name == #[trigger] (a + ".generated."@ + b)
    ||| exists|a: Seq<char>, b: Seq<char>| name == #[trigger] (a + ".gen."@ + b)
    ||| exists|a: Seq<char>| name == #[trigger] (a + ".pb.go"@)
    ||| exists|a: Seq<char>| name == #[trigger] (a + ".pb.rs"@)
    ||| exists|a: Seq<char>| name == #[trigger] (a + ".g.cs"@)
}

proof fn part_is_held(name: Seq<char>, a: Seq<char>, part: Seq<char>, b: Seq<char>)
    requires
        name == a + part + b,
    ensures
        text::holds_part(name, part),
{
    let i = a.len() as int;
    assert(name.subrange(i, i + part.len()) =~= part);
}

proof fn end_is_finish(name: Seq<char>, a: Seq<char>, part: Seq<char>)
    requires
        name == a + part,
    ensures
        text::finishes_with(name, part),
{
    assert(name.skip(name.len() - part.len()) =~= part);
}

/// A file whose name is marked as generated is.
pub proof fn marked_names_are_generated(path: Seq<char>, directory: Seq<char>, name: Seq<char>)
    requires
        is_in(path, directory, name),
        is_marked(text::lowered(name)),
    ensures
        scan::is_generated(path),
{
    names_come_last(path, directory, name);
    let small = text::lowered(name);
    if exists|a: Seq<char>, b: Seq<char>| small == #[trigger] (a + ".generated."@ + b) {
        let (a, b) = choose|a: Seq<char>, b: Seq<char>| small == #[trigger] (a + ".generated."@
            + b);
        part_is_held(small, a, ".generated."@, b);
    } else if exists|a: Seq<char>, b: Seq<char>| small == #[trigger] (a + ".gen."@ + b) {
        let (a, b) = choose|a: Seq<char>, b: Seq<char>| small == #[trigger] (a + ".gen."@ + b);
        part_is_held(small, a, ".gen."@, b);
    } else if exists|a: Seq<char>| small == #[trigger] (a + ".pb.go"@) {
        let a = choose|a: Seq<char>| small == #[trigger] (a + ".pb.go"@);
        end_is_finish(small, a, ".pb.go"@);
    } else if exists|a: Seq<char>| small == #[trigger] (a + ".pb.rs"@) {
        let a = choose|a: Seq<char>| small == #[trigger] (a + ".pb.rs"@);
        end_is_finish(small, a, ".pb.rs"@);
    } else {
        let a = choose|a: Seq<char>| small == #[trigger] (a + ".g.cs"@);
        end_is_finish(small, a, ".g.cs"@);
    }
}

/// Code is generated only where its name is marked, or a name on its path says so.
pub proof fn other_code_is_written_by_hand(path: Seq<char>, directory: Seq<char>, name: Seq<char>)
    requires
        is_in(path, directory, name),
        !is_marked(text::lowered(name)),
        forall|k: int|
            0 <= k < text::split_on(path, '/').len() ==> !is_produced(
                text::lowered(text::trimmed(#[trigger] text::split_on(path, '/')[k])),
            ),
    ensures
        !scan::is_generated(path),
{
    names_come_last(path, directory, name);
    let small = text::lowered(name);
    if text::holds_part(small, ".generated."@) {
        held_is_part(small, ".generated."@);
    }
    if text::holds_part(small, ".gen."@) {
        held_is_part(small, ".gen."@);
    }
    assert(text::finishes_with(small, ".pb.go"@) ==> small =~= small.take(
        small.len() - ".pb.go"@.len(),
    ) + ".pb.go"@);
    assert(text::finishes_with(small, ".pb.rs"@) ==> small =~= small.take(
        small.len() - ".pb.rs"@.len(),
    ) + ".pb.rs"@);
    assert(text::finishes_with(small, ".g.cs"@) ==> small =~= small.take(
        small.len() - ".g.cs"@.len(),
    ) + ".g.cs"@);
}

proof fn held_is_part(name: Seq<char>, part: Seq<char>)
    requires
        text::holds_part(name, part),
    ensures
        exists|a: Seq<char>, b: Seq<char>| name == #[trigger] (a + part + b),
{
    let i = choose|i: int|
        0 <= i <= name.len() - part.len() && #[trigger] name.subrange(i, i + part.len()) == part;
    let (a, b) = (name.take(i), name.skip(i + part.len()));
    assert(name =~= a + name.subrange(i, i + part.len()) + b);
}

/// The places of the files with content of a kind.
pub open spec fn of_kind(files: Seq<FileRecordView>, kind: ContentKind) -> Set<int> {
    Set::new(|i: int| 0 <= i < files.len() && files[i].content == kind)
}

/// The places of the generated files.
pub open spec fn generated_files(files: Seq<FileRecordView>) -> Set<int> {
    Set::new(|i: int| 0 <= i < files.len() && files[i].is_generated)
}

/// The places of the vendored files.
pub open spec fn vendored_files(files: Seq<FileRecordView>) -> Set<int> {
    Set::new(|i: int| 0 <= i < files.len() && files[i].is_vendor)
}

/// The places of the files in a language.
pub open spec fn files_in(files: Seq<FileRecordView>, language: Seq<char>) -> Set<int> {
    Set::new(|i: int| 0 <= i < files.len() && files[i].language == Some(language))
}

proof fn kinds_are_counted(files: Seq<FileRecordView>, kind: ContentKind)
    ensures
        of_kind(files, kind).finite(),
        of_kind(files, kind).len() == summary::content_count(files, kind),
    decreases files.len(),
{
    let here = of_kind(files, kind);
    if files.len() == 0 {
        assert(here =~= Set::empty());
    } else {
        let last = files.len() - 1;
        let before = of_kind(files.drop_last(), kind);
        kinds_are_counted(files.drop_last(), kind);
        assert(!before.contains(last));
        if here.contains(last) {
            assert(here =~= before.insert(last));
        } else {
            assert(here =~= before);
        }
    }
}

proof fn flags_are_counted(files: Seq<FileRecordView>)
    ensures
        generated_files(files).finite(),
        vendored_files(files).finite(),
        generated_files(files).len() == summary::generated_count(files),
        vendored_files(files).len() == summary::vendor_count(files),
    decreases files.len(),
{
    let generated = generated_files(files);
    let vendored = vendored_files(files);
    if files.len() == 0 {
        assert(generated =~= Set::empty());
        assert(vendored =~= Set::empty());
    } else {
        let last = files.len() - 1;
        let front = files.drop_last();
        flags_are_counted(front);
        assert(!generated_files(front).contains(last) && !vendored_files(front).contains(last));
        if generated.contains(last) {
            assert(generated =~= generated_files(front).insert(last));
        } else {
            assert(generated =~= generated_files(front));
        }
        if vendored.contains(last) {
            assert(vendored =~= vendored_files(front).insert(last));
        } else {
            assert(vendored =~= vendored_files(front));
        }
    }
}

proof fn languages_are_counted(files: Seq<FileRecordView>, language: Seq<char>)
    ensures
        files_in(files, language).finite(),
        files_in(files, language).len() == summary::language_count(files, language),
        summary::languages(files).contains(language) <==> files_in(files, language).len() > 0,
    decreases files.len(),
{
    let here = files_in(files, language);
    if files.len() == 0 {
        assert(here =~= Set::empty());
    } else {
        let last = files.len() - 1;
        let before = files_in(files.drop_last(), language);
        languages_are_counted(files.drop_last(), language);
        assert(!before.contains(last));
        if here.contains(last) {
            assert(here =~= before.insert(last));
        } else {
            assert(here =~= before);
        }
    }
}

/// The totals of a scan count the files of each kind, those that are generated or vendored, and
/// those of each language that some file has.
pub proof fn totals_count_the_files(totals: ScanSummary, report: ScanReportView)
    requires
        summary::is_summary(totals, report),
    ensures
        totals.total_files == report.files.len(),
        totals.content.text_files == of_kind(report.files, ContentKind::Text).len(),
        totals.content.binary_files == of_kind(report.files, ContentKind::Binary).len(),
        totals.content.unknown_files == of_kind(report.files, ContentKind::Unknown).len(),
        totals.flags.generated_files == generated_files(report.files).len(),
        totals.flags.vendor_files == vendored_files(report.files).len(),
        totals.warnings.scan_warnings == report.warnings.len(),
        forall|language: Seq<char>|
            #![trigger files_in(report.files, language)]
            totals.languages@.dom().contains(language) <==> files_in(report.files, language).len()
                > 0,
        forall|language: Seq<char>|
            #![trigger files_in(report.files, language)]
            totals.languages@.dom().contains(language) ==> totals.languages@[language] == files_in(
                report.files,
                language,
            ).len(),
{
    kinds_are_counted(report.files, ContentKind::Text);
    kinds_are_counted(report.files, ContentKind::Binary);
    kinds_are_counted(report.files, ContentKind::Unknown);
    flags_are_counted(report.files);
    assert forall|language: Seq<char>|
        #![trigger files_in(report.files, language)]
        (totals.languages@.dom().contains(language) <==> files_in(report.files, language).len() > 0)
            && (totals.languages@.dom().contains(language) ==> totals.languages@[language]
            == files_in(report.files, language).len()) by {
        languages_are_counted(report.files, language);
    }
}

/// One more file adds its bytes and its warnings to the totals.
pub proof fn files_add_their_bytes_and_warnings(
    before: ScanSummary,
    after: ScanSummary,
    report: ScanReportView,
    file: FileRecordView,
)
    requires
        summary::is_summary(before, report),
        summary::is_summary(
            after,
            (ScanReportView { files: report.files.push(file), ..report }),
        ),
    ensures
        after.total_bytes - before.total_bytes == match file.byte_size {
            Some(n) => n as int,
            None => 0,
        },
        after.warnings.total_warnings == before.warnings.total_warnings + file.warnings.len(),
        after.warnings.scan_warnings == before.warnings.scan_warnings,
{
    assert(report.files.push(file).drop_last() =~= report.files);
}

} // verus!
