//! The Git history stream: one record per commit, with a header, raw status rows
//! and line count rows, all separated by NUL bytes.

use vstd::prelude::*;

use crate::git::{
    GitChangeKind, GitFileChange, GitFileChangeView, GitHistoryError, GitHistoryErrorView,
    ParsedGitRecord, ParsedGitRecordView,
};
use crate::numbers;
use crate::order;
use crate::order::{KeyPart, Ordered};
use crate::table::TextMap;
use crate::text;

verus! {

/// The byte that starts each record of the stream.
pub const GIT_RECORD_SEPARATOR: u8 = 0x1e;

/// The place of a change kind among the change kinds.
pub open spec fn kind_rank(kind: GitChangeKind) -> int {
    match kind {
        GitChangeKind::Added => 0,
        GitChangeKind::Modified => 1,
        GitChangeKind::Deleted => 2,
        GitChangeKind::Renamed => 3,
        GitChangeKind::Copied => 4,
        GitChangeKind::TypeChanged => 5,
    }
}

fn rank_of(kind: GitChangeKind) -> (rank: u8)
    ensures
        rank == kind_rank(kind),
{
    match kind {
        GitChangeKind::Added => 0,
        GitChangeKind::Modified => 1,
        GitChangeKind::Deleted => 2,
        GitChangeKind::Renamed => 3,
        GitChangeKind::Copied => 4,
        GitChangeKind::TypeChanged => 5,
    }
}

impl Ordered for GitFileChange {
    /// Change events are ordered by commit time, commit, path, kind and line counts.
    open spec fn key(v: GitFileChangeView) -> Seq<KeyPart> {
        seq![
            KeyPart::Number(v.commit_time as int),
            KeyPart::Text(v.commit_id),
            KeyPart::Text(v.path),
            KeyPart::Number(kind_rank(v.change_kind)),
            KeyPart::Number(v.added_lines as int),
            KeyPart::Number(v.deleted_lines as int),
        ]
    }

    fn comes_before(&self, other: &Self) -> (r: bool) {
        proof {
            reveal_with_fuel(order::key_lt_from, 7);
        }
        if self.commit_time != other.commit_time {
            return self.commit_time < other.commit_time;
        }
        if text::precedes(self.commit_id.as_str(), other.commit_id.as_str()) {
            return true;
        }
        if text::precedes(other.commit_id.as_str(), self.commit_id.as_str()) {
            return false;
        }
        if text::precedes(self.path.as_str(), other.path.as_str()) {
            return true;
        }
        if text::precedes(other.path.as_str(), self.path.as_str()) {
            return false;
        }
        let mine: u8 = rank_of(self.change_kind);
        let theirs: u8 = rank_of(other.change_kind);
        if mine != theirs {
            return mine < theirs;
        }
        if self.added_lines != other.added_lines {
            return self.added_lines < other.added_lines;
        }
        self.deleted_lines < other.deleted_lines
    }
}

/// The error for a stream that does not have the expected form.
pub open spec fn malformed(context: Seq<char>, detail: Seq<char>) -> GitHistoryErrorView {
    GitHistoryErrorView::MalformedGitStream { context, detail }
}

pub(crate) fn malformed_stream(context: &'static str, detail: &str) -> (error: GitHistoryError)
    ensures
        error.deep_view() == malformed(context@, detail@),
{
    GitHistoryError::MalformedGitStream { context, detail: detail.to_owned() }
}

/// The text of a field; bytes that are not UTF-8 are an author identity or a path
/// that is not supported.
pub open spec fn utf8_value(bytes: Seq<u8>, name: Seq<char>, commit_id: Seq<char>) -> Result<
    Seq<char>,
    GitHistoryErrorView,
> {
    if vstd::utf8::valid_utf8(bytes) {
        Ok(vstd::utf8::decode_utf8(bytes))
    } else if name == "author name"@ || name == "author email"@ {
        Err(GitHistoryErrorView::UnsupportedAuthorIdentity { commit_id })
    } else {
        Err(GitHistoryErrorView::UnsupportedPathEncoding { commit_id })
    }
}

fn utf8_bytes(bytes: &[u8], name: &'static str, commit_id: &str) -> (r: Result<
    String,
    GitHistoryError,
>)
    ensures
        match r {
            Ok(s) => utf8_value(bytes@, name@, commit_id@) == Ok::<
                Seq<char>,
                GitHistoryErrorView,
            >(s@),
            Err(e) => utf8_value(bytes@, name@, commit_id@) == Err::<
                Seq<char>,
                GitHistoryErrorView,
            >(e.deep_view()),
        },
{
    match text::decode(bytes) {
        Ok(s) => Ok(s),
        Err(_) => {
            if text::same(name, "author name") || text::same(name, "author email") {
                Err(
                    GitHistoryError::UnsupportedAuthorIdentity {
                        commit_id: commit_id.to_owned(),
                    },
                )
            } else {
                Err(GitHistoryError::UnsupportedPathEncoding { commit_id: commit_id.to_owned() })
            }
        },
    }
}

/// The text of the field at `index`, which has to be there.
pub open spec fn utf8_field_value(
    fields: Seq<Seq<u8>>,
    index: int,
    name: Seq<char>,
    commit_id: Seq<char>,
) -> Result<Seq<char>, GitHistoryErrorView> {
    if index < fields.len() {
        utf8_value(fields[index], name, commit_id)
    } else {
        Err(malformed(name, "missing field"@))
    }
}

fn utf8_field(
    fields: &Vec<Vec<u8>>,
    index: usize,
    name: &'static str,
    commit_id: &str,
) -> (r: Result<String, GitHistoryError>)
    ensures
        match r {
            Ok(s) => utf8_field_value(fields.deep_view(), index as int, name@, commit_id@) == Ok::<
                Seq<char>,
                GitHistoryErrorView,
            >(s@),
            Err(e) => utf8_field_value(fields.deep_view(), index as int, name@, commit_id@)
                == Err::<Seq<char>, GitHistoryErrorView>(e.deep_view()),
        },
{
    if index < fields.len() {
        assert(fields.deep_view()[index as int] =~= fields@[index as int]@);
        utf8_bytes(fields[index].as_slice(), name, commit_id)
    } else {
        Err(malformed_stream(name, "missing field"))
    }
}

/// The signed number in the field at `index`.
pub open spec fn i64_field_value(
    fields: Seq<Seq<u8>>,
    index: int,
    name: Seq<char>,
    commit_id: Seq<char>,
) -> Result<int, GitHistoryErrorView> {
    match utf8_field_value(fields, index, name, commit_id) {
        Err(e) => Err(e),
        Ok(value) => match numbers::signed_value(value) {
            Ok(n) => Ok(n),
            Err(fault) => Err(
                malformed(name, "invalid integer in "@ + commit_id + ": "@ + fault.words()),
            ),
        },
    }
}

fn parse_i64_field(
    fields: &Vec<Vec<u8>>,
    index: usize,
    name: &'static str,
    commit_id: &str,
) -> (r: Result<i64, GitHistoryError>)
    ensures
        match r {
            Ok(n) => i64_field_value(fields.deep_view(), index as int, name@, commit_id@) == Ok::<
                int,
                GitHistoryErrorView,
            >(n as int),
            Err(e) => i64_field_value(fields.deep_view(), index as int, name@, commit_id@) == Err::<
                int,
                GitHistoryErrorView,
            >(e.deep_view()),
        },
{
    match utf8_field(fields, index, name, commit_id) {
        Err(e) => Err(e),
        Ok(value) => match numbers::parse_i64(value.as_str()) {
            Ok(n) => Ok(n),
            Err(fault) => {
                let mut detail = "invalid integer in ".to_owned();
                detail.append(commit_id);
                detail.append(": ");
                detail.append(fault.message());
                Err(malformed_stream(name, detail.as_str()))
            },
        },
    }
}

/// A path with `/` in place of each `\`.
pub open spec fn portable_path(path: Seq<char>) -> Seq<char> {
    text::replaced(path, '\\', '/')
}

fn normalize_git_path(path: String) -> (out: String)
    ensures
        out@ == portable_path(path@),
{
    text::replace_char(path.as_str(), '\\', '/')
}

/// Whether a path belongs to the analysis directory itself.
pub open spec fn is_internal_path(path: Seq<char>) -> bool {
    path == ".hotpath"@ || text::begins_with(path, ".hotpath/"@)
}

/// Whether a path belongs to the analysis directory itself.
pub fn is_internal_analysis_path(path: &str) -> (r: bool)
    ensures
        r == is_internal_path(path@),
{
    text::same(path, ".hotpath") || text::starts_with(path, ".hotpath/")
}

/// A token without the line breaks in front of it.
pub open spec fn without_breaks(token: Seq<u8>) -> Seq<u8>
    decreases token.len(),
{
    if token.len() > 0 && (token[0] == 10 || token[0] == 13) {
        without_breaks(token.drop_first())
    } else {
        token
    }
}

fn trim_record_token(token: &[u8]) -> (out: &[u8])
    ensures
        out@ == without_breaks(token@),
{
    let mut start: usize = 0;
    assert(token@.skip(0) =~= token@);
    while start < token.len() && (token[start] == 10 || token[start] == 13)
        invariant
            start <= token.len(),
            without_breaks(token@) == without_breaks(token@.skip(start as int)),
        decreases token.len() - start,
    {
        assert(token@.skip(start as int).drop_first() =~= token@.skip(start + 1));
        start = start + 1;
    }
    assert(token@.subrange(start as int, token@.len() as int) =~= token@.skip(start as int));
    vstd::slice::slice_subrange(token, start, token.len())
}

/// The change kind that a status letter stands for.
pub open spec fn kind_of_letter(letter: u8) -> Option<GitChangeKind> {
    if letter == 65 {
        Some(GitChangeKind::Added)
    } else if letter == 77 {
        Some(GitChangeKind::Modified)
    } else if letter == 68 {
        Some(GitChangeKind::Deleted)
    } else if letter == 82 {
        Some(GitChangeKind::Renamed)
    } else if letter == 67 {
        Some(GitChangeKind::Copied)
    } else if letter == 84 {
        Some(GitChangeKind::TypeChanged)
    } else {
        None
    }
}

/// The change kind of a raw status row: the first letter behind its last space.
pub open spec fn raw_kind(token: Seq<u8>) -> Option<GitChangeKind> {
    let status = text::split_on(token, 32u8).last();
    if status.len() > 0 {
        kind_of_letter(status[0])
    } else {
        None
    }
}

fn raw_change_kind(token: &[u8]) -> (kind: Option<GitChangeKind>)
    ensures
        kind == raw_kind(token@),
{
    let fields = text::split_bytes(token, 32);
    let status = &fields[fields.len() - 1];
    assert(fields.deep_view().last() =~= status@);
    if status.len() == 0 {
        return None;
    }
    let letter: u8 = status[0];
    if letter == 65 {
        Some(GitChangeKind::Added)
    } else if letter == 77 {
        Some(GitChangeKind::Modified)
    } else if letter == 68 {
        Some(GitChangeKind::Deleted)
    } else if letter == 82 {
        Some(GitChangeKind::Renamed)
    } else if letter == 67 {
        Some(GitChangeKind::Copied)
    } else if letter == 84 {
        Some(GitChangeKind::TypeChanged)
    } else {
        None
    }
}

/// A line count: a lone hyphen, which marks a binary file, counts as zero.
pub open spec fn numstat_count(value: Seq<u8>, field: Seq<char>, commit_id: Seq<char>) -> Result<
    nat,
    GitHistoryErrorView,
> {
    if value == seq![45u8] {
        Ok(0)
    } else {
        match utf8_value(value, field, commit_id) {
            Err(e) => Err(e),
            Ok(digits) => match numbers::unsigned_value(digits, u64::MAX as nat) {
                Ok(n) => Ok(n),
                Err(fault) => Err(
                    malformed(field, "invalid count in "@ + commit_id + ": "@ + fault.words()),
                ),
            },
        }
    }
}

fn parse_numstat_count(value: &[u8], field: &'static str, commit_id: &str) -> (r: Result<
    u64,
    GitHistoryError,
>)
    ensures
        match r {
            Ok(n) => numstat_count(value@, field@, commit_id@) == Ok::<nat, GitHistoryErrorView>(
                n as nat,
            ),
            Err(e) => numstat_count(value@, field@, commit_id@) == Err::<nat, GitHistoryErrorView>(
                e.deep_view(),
            ),
        },
{
    if value.len() == 1 && value[0] == 45 {
        assert(value@ =~= seq![45u8]);
        return Ok(0);
    }
    match utf8_bytes(value, field, commit_id) {
        Err(e) => Err(e),
        Ok(digits) => match numbers::parse_u64(digits.as_str()) {
            Ok(n) => Ok(n),
            Err(fault) => {
                let mut detail = "invalid count in ".to_owned();
                detail.append(commit_id);
                detail.append(": ");
                detail.append(fault.message());
                Err(malformed_stream(field, detail.as_str()))
            },
        },
    }
}

/// Path, added and deleted lines of a line count row: two counts and the rest of the
/// token, separated by tabs. A token with fewer than two tabs is no such row.
pub open spec fn numstat_row(token: Seq<u8>, commit_id: Seq<char>) -> Result<
    Option<(Seq<char>, nat, nat)>,
    GitHistoryErrorView,
> {
    let fields = text::split_on(token, 9u8);
    if fields.len() < 3 {
        Ok(None)
    } else {
        match numstat_count(fields[0], "added line count"@, commit_id) {
            Err(e) => Err(e),
            Ok(added) => match numstat_count(fields[1], "deleted line count"@, commit_id) {
                Err(e) => Err(e),
                Ok(deleted) => match utf8_value(
                    token.skip((fields[0].len() + fields[1].len() + 2) as int),
                    "numstat path"@,
                    commit_id,
                ) {
                    Err(e) => Err(e),
                    Ok(path) => Ok(Some((portable_path(path), added, deleted))),
                },
            },
        }
    }
}

/// The first pieces and the separators between them fit into the whole.
proof fn first_pieces_fit<A>(s: Seq<A>, sep: A)
    ensures
        text::split_on(s, sep).len() >= 1,
        text::split_on(s, sep)[0].len() <= s.len(),
        text::split_on(s, sep).len() >= 2 ==> text::split_on(s, sep)[0].len() + 1 + text::split_on(
            s,
            sep,
        )[1].len() <= s.len(),
        text::split_on(s, sep).len() >= 3 ==> text::split_on(s, sep)[0].len() + 1 + text::split_on(
            s,
            sep,
        )[1].len() + 1 <= s.len(),
    decreases s.len(),
{
    if s.len() > 0 {
        first_pieces_fit(s.drop_last(), sep);
    }
}

fn parse_numstat_token(token: &[u8], commit_id: &str) -> (r: Result<
    Option<(String, u64, u64)>,
    GitHistoryError,
>)
    ensures
        match r {
            Ok(None) => numstat_row(token@, commit_id@) == Ok::<
                Option<(Seq<char>, nat, nat)>,
                GitHistoryErrorView,
            >(None),
            Ok(Some((path, added, deleted))) => numstat_row(token@, commit_id@) == Ok::<
                Option<(Seq<char>, nat, nat)>,
                GitHistoryErrorView,
            >(Some((path@, added as nat, deleted as nat))),
            Err(e) => numstat_row(token@, commit_id@) == Err::<
                Option<(Seq<char>, nat, nat)>,
                GitHistoryErrorView,
            >(e.deep_view()),
        },
{
    let fields = text::split_bytes(token, 9);
    if fields.len() < 3 {
        return Ok(None);
    }
    proof {
        first_pieces_fit(token@, 9u8);
        assert(fields.deep_view()[0] =~= fields@[0]@);
        assert(fields.deep_view()[1] =~= fields@[1]@);
        assert(fields@[0]@.len() + 1 + fields@[1]@.len() + 1 <= token@.len());
    }
    let added: u64 = match parse_numstat_count(
        fields[0].as_slice(),
        "added line count",
        commit_id,
    ) {
        Err(e) => return Err(e),
        Ok(n) => n,
    };
    let deleted: u64 = match parse_numstat_count(
        fields[1].as_slice(),
        "deleted line count",
        commit_id,
    ) {
        Err(e) => return Err(e),
        Ok(n) => n,
    };
    let end: usize = token.len();
    let start: usize = fields[0].len() + 1 + fields[1].len() + 1;
    let rest = vstd::slice::slice_subrange(token, start, end);
    assert(rest@ =~= token@.skip(start as int));
    match utf8_bytes(rest, "numstat path", commit_id) {
        Err(e) => Err(e),
        Ok(path) => Ok(Some((normalize_git_path(path), added, deleted))),
    }
}

/// The header of a record.
pub struct CommitHeader {
    pub commit_id: Seq<char>,
    pub commit_time: int,
    pub author: Seq<char>,
    pub parent_count: nat,
}

/// The header in the first six fields: commit, time, author name and email, parents,
/// and an empty field that ends it.
pub open spec fn header_of(fields: Seq<Seq<u8>>) -> Result<CommitHeader, GitHistoryErrorView> {
    match utf8_field_value(fields, 0, "commit id"@, Seq::empty()) {
        Err(e) => Err(e),
        Ok(commit_id) => match i64_field_value(fields, 1, "commit time"@, commit_id) {
            Err(e) => Err(e),
            Ok(commit_time) => match utf8_field_value(fields, 2, "author name"@, commit_id) {
                Err(e) => Err(e),
                Ok(name) => match utf8_field_value(fields, 3, "author email"@, commit_id) {
                    Err(e) => Err(e),
                    Ok(email) => match utf8_field_value(fields, 4, "parent ids"@, commit_id) {
                        Err(e) => Err(e),
                        Ok(parents) => if fields.len() <= 5 {
                            Err(malformed("commit header"@, "missing header terminator"@))
                        } else if fields[5].len() != 0 {
                            Err(malformed("commit header"@, "header terminator was not empty"@))
                        } else {
                            Ok(
                                CommitHeader {
                                    commit_id,
                                    commit_time,
                                    author: name + " <"@ + email + ">"@,
                                    parent_count: text::words(parents).len(),
                                },
                            )
                        },
                    },
                },
            },
        },
    }
}

/// What has been read of a record's rows.
#[verifier::ext_equal]
pub struct BodyRows {
    /// The change kind of each path that has a raw status row.
    pub kinds: Map<Seq<char>, GitChangeKind>,
    /// Path, added and deleted lines of each line count row.
    pub numstats: Seq<(Seq<char>, nat, nat)>,
    pub raw_records: nat,
    pub numstat_records: nat,
}

impl BodyRows {
    pub open spec fn with_raw(self) -> BodyRows {
        BodyRows { raw_records: self.raw_records + 1, ..self }
    }

    /// Paths of the analysis directory are left out.
    pub open spec fn with_kind(self, path: Seq<char>, kind: GitChangeKind) -> BodyRows {
        if is_internal_path(portable_path(path)) {
            self
        } else {
            BodyRows { kinds: self.kinds.insert(portable_path(path), kind), ..self }
        }
    }

    /// Paths of the analysis directory are left out.
    pub open spec fn with_numstat(self, path: Seq<char>, added: nat, deleted: nat) -> BodyRows {
        if is_internal_path(path) {
            BodyRows { numstat_records: self.numstat_records + 1, ..self }
        } else {
            BodyRows {
                numstat_records: self.numstat_records + 1,
                numstats: self.numstats.push((path, added, deleted)),
                ..self
            }
        }
    }
}

/// No rows.
pub open spec fn no_rows() -> BodyRows {
    BodyRows {
        kinds: Map::empty(),
        numstats: Seq::empty(),
        raw_records: 0,
        numstat_records: 0,
    }
}

/// Reads the rows in the tokens from `index` on, behind those in `rows`. A raw status
/// row takes the next token for its path, and for a rename or a copy also the one
/// behind it, which is the path that counts.
pub open spec fn read_rows(
    tokens: Seq<Seq<u8>>,
    index: int,
    commit_id: Seq<char>,
    rows: BodyRows,
) -> Result<BodyRows, GitHistoryErrorView>
    decreases tokens.len() - index,
{
    if index >= tokens.len() {
        Ok(rows)
    } else {
        let token = without_breaks(tokens[index]);
        if token.len() == 0 {
            read_rows(tokens, index + 1, commit_id, rows)
        } else if token[0] == 58 {
            match raw_kind(token) {
                None => read_rows(tokens, index + 1, commit_id, rows.with_raw()),
                Some(kind) => if index + 1 >= tokens.len() {
                    Err(malformed("raw record"@, "missing raw path"@))
                } else {
                    match utf8_value(tokens[index + 1], "raw path"@, commit_id) {
                        Err(e) => Err(e),
                        Ok(path) => if (kind == GitChangeKind::Renamed || kind
                            == GitChangeKind::Copied) && index + 2 < tokens.len() {
                            match utf8_value(
                                tokens[index + 2],
                                "raw destination path"@,
                                commit_id,
                            ) {
                                Err(e) => Err(e),
                                Ok(destination) => read_rows(
                                    tokens,
                                    index + 3,
                                    commit_id,
                                    rows.with_raw().with_kind(destination, kind),
                                ),
                            }
                        } else {
                            read_rows(
                                tokens,
                                index + 2,
                                commit_id,
                                rows.with_raw().with_kind(path, kind),
                            )
                        },
                    }
                },
            }
        } else {
            match numstat_row(token, commit_id) {
                Err(e) => Err(e),
                Ok(None) => read_rows(tokens, index + 1, commit_id, rows),
                Ok(Some((path, added, deleted))) => read_rows(
                    tokens,
                    index + 1,
                    commit_id,
                    rows.with_numstat(path, added, deleted),
                ),
            }
        }
    }
}

/// The change event of a line count row; a path without a raw status row counts as
/// modified.
pub open spec fn change_of(
    header: CommitHeader,
    kinds: Map<Seq<char>, GitChangeKind>,
    row: (Seq<char>, nat, nat),
) -> GitFileChangeView {
    GitFileChangeView {
        commit_id: header.commit_id,
        parent_count: header.parent_count as usize,
        is_merge: header.parent_count > 1,
        author: header.author,
        commit_time: header.commit_time as i64,
        path: row.0,
        change_kind: if kinds.dom().contains(row.0) {
            kinds[row.0]
        } else {
            GitChangeKind::Modified
        },
        added_lines: row.1 as u64,
        deleted_lines: row.2 as u64,
    }
}

/// What a record of the stream says.
pub open spec fn record_value(record: Seq<u8>) -> Result<ParsedGitRecordView, GitHistoryErrorView> {
    if record.len() == 0 || record[0] != GIT_RECORD_SEPARATOR {
        Err(malformed("commit record"@, "missing record separator"@))
    } else {
        let fields = text::split_on(record.skip(1), 0u8);
        match header_of(fields) {
            Err(e) => Err(e),
            Ok(header) => match read_rows(fields, 6, header.commit_id, no_rows()) {
                Err(e) => Err(e),
                Ok(rows) => Ok(
                    ParsedGitRecordView {
                        commit_id: header.commit_id,
                        changes: order::sorted_by(
                            rows.numstats.map_values(
                                |row: (Seq<char>, nat, nat)| change_of(header, rows.kinds, row),
                            ),
                            order::by_key::<GitFileChange>(),
                        ),
                        raw_records: rows.raw_records as u64,
                        numstat_records: rows.numstat_records as u64,
                    },
                ),
            },
        }
    }
}

/// Whether two events are of one commit: they share all that its header says.
pub open spec fn share_header(a: GitFileChangeView, b: GitFileChangeView) -> bool {
    &&& a.commit_id == b.commit_id
    &&& a.commit_time == b.commit_time
    &&& a.author == b.author
    &&& a.parent_count == b.parent_count
    &&& a.is_merge == b.is_merge
}

/// The events of a record are events of the commit that it is read for, and share its header.
pub proof fn events_of_a_record_share_its_header(record: Seq<u8>)
    ensures
        record_value(record) matches Ok(parsed) ==> {
            &&& forall|i: int|
                0 <= i < parsed.changes.len() ==> (#[trigger] parsed.changes[i]).commit_id
                    == parsed.commit_id
            &&& forall|i: int, j: int|
                0 <= i < parsed.changes.len() && 0 <= j < parsed.changes.len() ==> share_header(
                    #[trigger] parsed.changes[i],
                    #[trigger] parsed.changes[j],
                )
        },
{
    if let Ok(parsed) = record_value(record) {
        let fields = text::split_on(record.skip(1), 0u8);
        let header = header_of(fields)->Ok_0;
        let rows = read_rows(fields, 6, header.commit_id, no_rows())->Ok_0;
        let events = rows.numstats.map_values(
            |row: (Seq<char>, nat, nat)| change_of(header, rows.kinds, row),
        );
        order::sorted_by_permutes(events, order::by_key::<GitFileChange>());
        assert forall|i: int| 0 <= i < parsed.changes.len() implies exists|k: int|
            0 <= k < rows.numstats.len() && (#[trigger] parsed.changes[i]) == change_of(
                header,
                rows.kinds,
                #[trigger] rows.numstats[k],
            ) by {
            assert(parsed.changes.contains(parsed.changes[i]));
            order::contains_by_multiset(parsed.changes, events, parsed.changes[i]);
            let k = choose|k: int| 0 <= k < events.len() && events[k] == parsed.changes[i];
            assert(events[k] == change_of(header, rows.kinds, rows.numstats[k]));
        }
    }
}

/// Two events of one commit that tie in the order of events are equal.
pub proof fn ties_within_a_commit_are_equal(a: GitFileChangeView, b: GitFileChangeView)
    requires
        a.commit_id == b.commit_id ==> share_header(a, b),
        !order::by_key::<GitFileChange>()(a, b),
        !order::by_key::<GitFileChange>()(b, a),
    ensures
        a == b,
{
    reveal_with_fuel(order::key_lt_from, 7);
    text::text_lt_total(a.commit_id, b.commit_id);
    text::text_lt_total(a.path, b.path);
}

/// The header of a record as it is read.
struct RecordHeader {
    commit_id: String,
    commit_time: i64,
    author: String,
    parent_count: usize,
}

impl RecordHeader {
    spec fn value(&self) -> CommitHeader {
        CommitHeader {
            commit_id: self.commit_id@,
            commit_time: self.commit_time as int,
            author: self.author@,
            parent_count: self.parent_count as nat,
        }
    }
}

fn read_header(fields: &Vec<Vec<u8>>) -> (r: Result<RecordHeader, GitHistoryError>)
    ensures
        match r {
            Ok(header) => header_of(fields.deep_view()) == Ok::<CommitHeader, GitHistoryErrorView>(
                header.value(),
            ) && fields.len() >= 6,
            Err(e) => header_of(fields.deep_view()) == Err::<CommitHeader, GitHistoryErrorView>(
                e.deep_view(),
            ),
        },
{
    let ghost all = fields.deep_view();
    proof {
        reveal_strlit("");
        assert(""@ =~= Seq::<char>::empty());
    }
    let commit_id = match utf8_field(fields, 0, "commit id", "") {
        Err(e) => return Err(e),
        Ok(value) => value,
    };
    let commit_time: i64 = match parse_i64_field(fields, 1, "commit time", commit_id.as_str()) {
        Err(e) => return Err(e),
        Ok(value) => value,
    };
    let name = match utf8_field(fields, 2, "author name", commit_id.as_str()) {
        Err(e) => return Err(e),
        Ok(value) => value,
    };
    let email = match utf8_field(fields, 3, "author email", commit_id.as_str()) {
        Err(e) => return Err(e),
        Ok(value) => value,
    };
    let parents = match utf8_field(fields, 4, "parent ids", commit_id.as_str()) {
        Err(e) => return Err(e),
        Ok(value) => value,
    };
    if fields.len() <= 5 {
        return Err(malformed_stream("commit header", "missing header terminator"));
    }
    assert(all[5] =~= fields@[5]@);
    if fields[5].len() != 0 {
        return Err(malformed_stream("commit header", "header terminator was not empty"));
    }
    let mut author = name;
    author.append(" <");
    author.append(email.as_str());
    author.append(">");
    Ok(
        RecordHeader {
            commit_id,
            commit_time,
            author,
            parent_count: text::count_words(parents.as_str()),
        },
    )
}

spec fn row_values(rows: Seq<(String, u64, u64)>) -> Seq<(Seq<char>, nat, nat)> {
    Seq::new(rows.len(), |i: int| (rows[i].0@, rows[i].1 as nat, rows[i].2 as nat))
}

fn changes_of_rows(
    header: &RecordHeader,
    kinds: &TextMap<GitChangeKind>,
    rows: Vec<(String, u64, u64)>,
) -> (out: Vec<GitFileChange>)
    requires
        kinds.wf(),
    ensures
        out.deep_view() == row_values(rows@).map_values(
            |row: (Seq<char>, nat, nat)| change_of(header.value(), kinds@, row),
        ),
{
    let ghost values = row_values(rows@);
    let ghost expected = values.map_values(
        |row: (Seq<char>, nat, nat)| change_of(header.value(), kinds@, row),
    );
    let mut out: Vec<GitFileChange> = Vec::new();
    for row in it: rows
        invariant
            kinds.wf(),
            it.seq() == rows@,
            values == row_values(rows@),
            expected == values.map_values(
                |row: (Seq<char>, nat, nat)| change_of(header.value(), kinds@, row),
            ),
            out.deep_view() == expected.take(it.index() as int),
    {
        let ghost n = it.index() as int;
        let ghost before = out.deep_view();
        let (path, added_lines, deleted_lines) = row;
        let change_kind = match kinds.get(path.as_str()) {
            Some(kind) => *kind,
            None => GitChangeKind::Modified,
        };
        out.push(
            GitFileChange {
                commit_id: header.commit_id.clone(),
                parent_count: header.parent_count,
                is_merge: header.parent_count > 1,
                author: header.author.clone(),
                commit_time: header.commit_time,
                path,
                change_kind,
                added_lines,
                deleted_lines,
            },
        );
        assert(out.deep_view() =~= before.push(expected[n]));
        assert(expected.take(n + 1) =~= expected.take(n).push(expected[n]));
    }
    assert(expected.take(expected.len() as int) =~= expected);
    out
}

/// Reads one record of the stream: its commit and the change events of that commit.
pub fn parse_git_stream_record(record: &[u8]) -> (r: Result<ParsedGitRecord, GitHistoryError>)
    ensures
        match r {
            Ok(parsed) => record_value(record@) == Ok::<ParsedGitRecordView, GitHistoryErrorView>(
                parsed.deep_view(),
            ),
            Err(e) => record_value(record@) == Err::<ParsedGitRecordView, GitHistoryErrorView>(
                e.deep_view(),
            ),
        },
{
    if record.len() == 0 || record[0] != GIT_RECORD_SEPARATOR {
        return Err(malformed_stream("commit record", "missing record separator"));
    }
    let content = vstd::slice::slice_subrange(record, 1, record.len());
    assert(content@ =~= record@.skip(1));
    let fields = text::split_bytes(content, 0);
    let ghost all = fields.deep_view();
    let header = match read_header(&fields) {
        Err(e) => return Err(e),
        Ok(header) => header,
    };
    let ghost spec_header = header.value();
    let mut kinds: TextMap<GitChangeKind> = TextMap::new();
    let mut numstats: Vec<(String, u64, u64)> = Vec::new();
    let mut raw_records: u64 = 0;
    let mut numstat_records: u64 = 0;
    let mut index: usize = 6;
    let ghost mut rows = no_rows();
    proof {
        assert(row_values(numstats@) =~= rows.numstats);
    }
    while index < fields.len()
        invariant
            all == fields.deep_view(),
            all == text::split_on(record@.skip(1), 0u8),
            record@.len() > 0,
            record@[0] == GIT_RECORD_SEPARATOR,
            header_of(all) == Ok::<CommitHeader, GitHistoryErrorView>(spec_header),
            6 <= index,
            raw_records <= index,
            numstat_records <= index,
            index <= all.len(),
            kinds.wf(),
            rows.kinds == kinds@,
            rows.numstats == row_values(numstats@),
            rows.raw_records == raw_records,
            rows.numstat_records == numstat_records,
            spec_header == header.value(),
            read_rows(all, 6, spec_header.commit_id, no_rows()) == read_rows(
                all,
                index as int,
                spec_header.commit_id,
                rows,
            ),
        decreases fields.len() - index,
    {
        assert(all[index as int] =~= fields@[index as int]@);
        let token = trim_record_token(fields[index].as_slice());
        index = index + 1;
        if token.len() == 0 {
            continue;
        }
        if token[0] == 58 {
            raw_records = raw_records + 1;
            proof {
                rows = rows.with_raw();
            }
            let kind = match raw_change_kind(token) {
                None => continue,
                Some(kind) => kind,
            };
            if index >= fields.len() {
                return Err(malformed_stream("raw record", "missing raw path"));
            }
            assert(all[index as int] =~= fields@[index as int]@);
            let mut path = match utf8_bytes(
                fields[index].as_slice(),
                "raw path",
                header.commit_id.as_str(),
            ) {
                Err(e) => return Err(e),
                Ok(path) => path,
            };
            index = index + 1;
            if kind == GitChangeKind::Renamed || kind == GitChangeKind::Copied {
                if index < fields.len() {
                    assert(all[index as int] =~= fields@[index as int]@);
                    path = match utf8_bytes(
                        fields[index].as_slice(),
                        "raw destination path",
                        header.commit_id.as_str(),
                    ) {
                        Err(e) => return Err(e),
                        Ok(path) => path,
                    };
                    index = index + 1;
                }
            }
            proof {
                rows = rows.with_kind(path@, kind);
            }
            let path = normalize_git_path(path);
            if !is_internal_analysis_path(path.as_str()) {
                kinds.insert(path.as_str(), kind);
            }
            continue;
        }
        match parse_numstat_token(token, header.commit_id.as_str()) {
            Err(e) => return Err(e),
            Ok(None) => {},
            Ok(Some((path, added, deleted))) => {
                numstat_records = numstat_records + 1;
                let ghost row = (path@, added as nat, deleted as nat);
                proof {
                    rows = rows.with_numstat(path@, added as nat, deleted as nat);
                }
                if !is_internal_analysis_path(path.as_str()) {
                    let ghost before = numstats@;
                    numstats.push((path, added, deleted));
                    assert(row_values(numstats@) =~= row_values(before).push(row));
                }
            },
        }
    }
    let changes = changes_of_rows(&header, &kinds, numstats);
    Ok(
        ParsedGitRecord {
            commit_id: header.commit_id,
            changes: order::sort(changes),
            raw_records,
            numstat_records,
        },
    )
}

/// `buffer` from its first record separator on; nothing where there is none.
pub open spec fn from_separator(buffer: Seq<u8>) -> Seq<u8>
    decreases buffer.len(),
{
    if buffer.len() == 0 || buffer[0] == GIT_RECORD_SEPARATOR {
        buffer
    } else {
        from_separator(buffer.drop_first())
    }
}

/// Drops what stands before the first record separator.
pub fn discard_before_record_separator(buffer: &mut Vec<u8>)
    ensures
        final(buffer)@ == from_separator(old(buffer)@),
{
    let ghost all = buffer@;
    let mut start: usize = 0;
    assert(all.skip(0) =~= all);
    while start < buffer.len() && buffer[start] != GIT_RECORD_SEPARATOR
        invariant
            start <= buffer.len(),
            buffer@ == all,
            from_separator(all) == from_separator(all.skip(start as int)),
        decreases buffer.len() - start,
    {
        assert(all.skip(start as int).drop_first() =~= all.skip(start + 1));
        start = start + 1;
    }
    if start > 0 {
        let rest = buffer.split_off(start);
        assert(rest@ =~= all.skip(start as int));
        *buffer = rest;
    }
}

/// How far the record at the start of `buffer` reaches: up to the next separator at or
/// behind index `i`, if there is one.
pub open spec fn record_end(buffer: Seq<u8>, i: int) -> Option<int>
    decreases buffer.len() - i,
{
    if i >= buffer.len() {
        None
    } else if buffer[i] == GIT_RECORD_SEPARATOR {
        Some(i)
    } else {
        record_end(buffer, i + 1)
    }
}

proof fn record_end_bounds(buffer: Seq<u8>, i: int)
    requires
        0 <= i,
    ensures
        record_end(buffer, i) matches Some(end) ==> i <= end < buffer.len() && buffer[end]
            == GIT_RECORD_SEPARATOR,
    decreases buffer.len() - i,
{
    if i < buffer.len() && buffer[i] != GIT_RECORD_SEPARATOR {
        record_end_bounds(buffer, i + 1);
    }
}

/// The complete records at the start of `buffer`, which starts with a separator, and
/// what is left behind them.
pub open spec fn framed(buffer: Seq<u8>) -> (Seq<Seq<u8>>, Seq<u8>)
    decreases buffer.len(),
{
    match record_end(buffer, 1) {
        None => (Seq::empty(), buffer),
        Some(end) => if 1 <= end < buffer.len() {
            let tail = framed(buffer.skip(end));
            (seq![buffer.take(end)] + tail.0, tail.1)
        } else {
            (Seq::empty(), buffer)
        },
    }
}

/// The complete records in `buffer`, a record being complete once the separator of the
/// next one has arrived, and what is left for later.
pub open spec fn complete_records(buffer: Seq<u8>) -> (Seq<Seq<u8>>, Seq<u8>) {
    framed(from_separator(buffer))
}

proof fn from_separator_of_concat(a: Seq<u8>, b: Seq<u8>)
    ensures
        from_separator(a).len() > 0 ==> from_separator(a + b) == from_separator(a) + b
            && from_separator(a)[0] == GIT_RECORD_SEPARATOR,
        from_separator(a).len() == 0 ==> from_separator(a + b) == from_separator(b),
    decreases a.len(),
{
    if a.len() == 0 {
        assert(a + b =~= b);
    } else if a[0] != GIT_RECORD_SEPARATOR {
        from_separator_of_concat(a.drop_first(), b);
        assert((a + b).drop_first() =~= a.drop_first() + b);
    }
}

proof fn record_end_of_concat(a: Seq<u8>, b: Seq<u8>, i: int)
    requires
        0 <= i,
    ensures
        record_end(a, i) is Some ==> record_end(a + b, i) == record_end(a, i),
    decreases a.len() - i,
{
    if i < a.len() {
        assert((a + b)[i] == a[i]);
        record_end_of_concat(a, b, i + 1);
    }
}

proof fn framed_of_concat(a: Seq<u8>, b: Seq<u8>)
    requires
        a.len() > 0,
        a[0] == GIT_RECORD_SEPARATOR,
    ensures
        framed(a).1.len() > 0,
        framed(a).1[0] == GIT_RECORD_SEPARATOR,
        framed(a + b).0 == framed(a).0 + framed(framed(a).1 + b).0,
        framed(a + b).1 == framed(framed(a).1 + b).1,
    decreases a.len(),
{
    record_end_bounds(a, 1);
    record_end_of_concat(a, b, 1);
    match record_end(a, 1) {
        None => {
            assert(framed(a).0 + framed(a + b).0 =~= framed(a + b).0);
        },
        Some(end) => {
            let rest = a.skip(end);
            framed_of_concat(rest, b);
            assert((a + b).skip(end) =~= rest + b);
            assert((a + b).take(end) =~= a.take(end));
            assert(framed(a + b).0 =~= framed(a).0 + framed(framed(a).1 + b).0);
        },
    }
}

/// However the stream is cut into reads, the same records come out: the records of
/// the first part, followed by those of what it left together with the second part.
pub proof fn records_do_not_depend_on_reads(first: Seq<u8>, second: Seq<u8>)
    ensures
        complete_records(first + second).0 == complete_records(first).0 + complete_records(
            complete_records(first).1 + second,
        ).0,
        complete_records(first + second).1 == complete_records(
            complete_records(first).1 + second,
        ).1,
{
    from_separator_of_concat(first, second);
    let start = from_separator(first);
    if start.len() == 0 {
        assert(framed(start).0 =~= Seq::<Seq<u8>>::empty());
        assert(complete_records(first).1 + second =~= second);
        assert(complete_records(first).0 + complete_records(second).0 =~= complete_records(
            second,
        ).0);
    } else {
        framed_of_concat(start, second);
        let left = framed(start).1 + second;
        assert(left[0] == GIT_RECORD_SEPARATOR);
        assert(from_separator(left) == left);
    }
}

/// The records that can be read before the first faulty one, and its error.
pub open spec fn read_records(records: Seq<Seq<u8>>) -> (
    Seq<ParsedGitRecordView>,
    Option<GitHistoryErrorView>,
)
    decreases records.len(),
{
    if records.len() == 0 {
        (Seq::empty(), None)
    } else {
        let front = read_records(records.drop_last());
        match front.1 {
            Some(e) => front,
            None => match record_value(records.last()) {
                Ok(parsed) => (front.0.push(parsed), None),
                Err(e) => (front.0, Some(e)),
            },
        }
    }
}

/// A fault among the first records is the fault of all.
proof fn read_records_fault_spreads(records: Seq<Seq<u8>>, n: int)
    requires
        0 <= n <= records.len(),
        read_records(records.take(n)).1 is Some,
    ensures
        read_records(records) == read_records(records.take(n)),
    decreases records.len() - n,
{
    if n < records.len() {
        assert(records.take(n + 1).drop_last() =~= records.take(n));
        read_records_fault_spreads(records, n + 1);
    } else {
        assert(records.take(n) =~= records);
    }
}

/// What is left of `buffer` once its complete records are read: behind the first faulty one, or
/// behind all of them.
pub open spec fn unread(buffer: Seq<u8>) -> Seq<u8>
    decreases buffer.len(),
{
    match record_end(buffer, 1) {
        None => buffer,
        Some(end) => if 1 <= end < buffer.len() {
            if record_value(buffer.take(end)) is Err {
                buffer.skip(end)
            } else {
                unread(buffer.skip(end))
            }
        } else {
            buffer
        },
    }
}

/// What came out of the stream: the records up to the first fault, and the fault.
pub struct DrainedRecords {
    pub records: Vec<ParsedGitRecord>,
    pub error: Option<GitHistoryError>,
}

/// Takes the complete records out of `buffer` and reads them up to the first fault.
/// Without a fault, what is left waits for its rest; else what follows the faulty record is left.
pub fn drain_complete_git_records(buffer: &mut Vec<u8>) -> (out: DrainedRecords)
    ensures
        (out.records.deep_view(), out.error.deep_view()) == read_records(
            complete_records(old(buffer)@).0,
        ),
        final(buffer)@ == unread(from_separator(old(buffer)@)),
        out.error is None ==> final(buffer)@ == complete_records(old(buffer)@).1,
{
    let ghost framing = complete_records(buffer@);
    discard_before_record_separator(buffer);
    let mut records: Vec<ParsedGitRecord> = Vec::new();
    let ghost mut taken: int = 0;
    proof {
        assert(framing.0.take(0) =~= Seq::<Seq<u8>>::empty());
        assert(records.deep_view() =~= Seq::<ParsedGitRecordView>::empty());
        assert(framing.0.skip(0) =~= framing.0);
    }
    loop
        invariant
            0 <= taken <= framing.0.len(),
            framed(buffer@).0 == framing.0.skip(taken),
            framed(buffer@).1 == framing.1,
            unread(buffer@) == unread(from_separator(old(buffer)@)),
            read_records(framing.0.take(taken)) == (
                records.deep_view(),
                None::<GitHistoryErrorView>,
            ),
            framing == complete_records(old(buffer)@),
        ensures
            taken == framing.0.len(),
            framing == complete_records(old(buffer)@),
            buffer@ == framing.1,
            buffer@ == unread(from_separator(old(buffer)@)),
            read_records(framing.0.take(taken)) == (
                records.deep_view(),
                None::<GitHistoryErrorView>,
            ),
        decreases buffer.len(),
    {
        let ghost here = buffer@;
        let mut end: usize = 1;
        while end < buffer.len() && buffer[end] != GIT_RECORD_SEPARATOR
            invariant
                1 <= end,
                here == buffer@,
                record_end(here, 1) == record_end(here, end as int),
            decreases buffer.len() - end,
        {
            end = end + 1;
        }
        if end >= buffer.len() {
            assert(framing.0.skip(taken).len() == 0);
            break;
        }
        let mut record = buffer.split_off(end);
        std::mem::swap(buffer, &mut record);
        proof {
            assert(record@ == here.take(end as int));
            assert(buffer@ =~= here.skip(end as int));
            let tail = framed(buffer@);
            assert(framed(here).0 == seq![record@] + tail.0);
            assert(framing.0[taken] == framing.0.skip(taken)[0]);
            assert(framing.0[taken] == record@);
            assert(framing.0.skip(taken + 1) =~= framing.0.skip(taken).drop_first());
            assert(tail.0 =~= (seq![record@] + tail.0).drop_first());
            assert(framing.0.take(taken + 1).drop_last() =~= framing.0.take(taken));
            assert(framing.0.take(taken + 1).last() == record@);
        }
        let ghost before = records.deep_view();
        match parse_git_stream_record(record.as_slice()) {
            Ok(parsed) => {
                let ghost value = parsed.deep_view();
                records.push(parsed);
                assert(records.deep_view() =~= before.push(value));
            },
            Err(e) => {
                proof {
                    read_records_fault_spreads(framing.0, taken + 1);
                }
                return DrainedRecords { records, error: Some(e) };
            },
        }
        proof {
            taken = taken + 1;
        }
    }
    assert(framing.0.take(taken) =~= framing.0);
    DrainedRecords { records, error: None }
}

/// Reads the last record of the stream, which no separator follows.
pub fn drain_final_git_record(buffer: &mut Vec<u8>) -> (r: Result<
    Option<ParsedGitRecord>,
    GitHistoryError,
>)
    ensures
        from_separator(old(buffer)@).len() <= 1 ==> r == Ok::<
            Option<ParsedGitRecord>,
            GitHistoryError,
        >(None) && final(buffer)@ == from_separator(old(buffer)@),
        from_separator(old(buffer)@).len() > 1 ==> final(buffer)@.len() == 0 && match r {
            Ok(parsed) => parsed is Some && record_value(from_separator(old(buffer)@)) == Ok::<
                ParsedGitRecordView,
                GitHistoryErrorView,
            >(parsed->0.deep_view()),
            Err(e) => record_value(from_separator(old(buffer)@)) == Err::<
                ParsedGitRecordView,
                GitHistoryErrorView,
            >(e.deep_view()),
        },
{
    discard_before_record_separator(buffer);
    if buffer.len() > 1 {
        let mut record: Vec<u8> = Vec::new();
        std::mem::swap(buffer, &mut record);
        match parse_git_stream_record(record.as_slice()) {
            Ok(parsed) => Ok(Some(parsed)),
            Err(e) => Err(e),
        }
    } else {
        Ok(None)
    }
}

/// Reads a history stream part by part.
pub struct StreamWorker {
    buffer: Vec<u8>,
}

impl View for StreamWorker {
    type V = Seq<u8>;

    /// What waits for its rest.
    closed spec fn view(&self) -> Seq<u8> {
        self.buffer@
    }
}

impl StreamWorker {
    /// A reader to which nothing was fed yet.
    pub fn new() -> (out: StreamWorker)
        ensures
            out@ == Seq::<u8>::empty(),
    {
        StreamWorker { buffer: Vec::new() }
    }

    /// Takes the next part of the stream, and hands out the commits that are complete with it.
    pub fn feed(&mut self, bytes: &[u8]) -> (out: DrainedRecords)
        ensures
            (out.records.deep_view(), out.error.deep_view()) == read_records(
                complete_records(old(self)@ + bytes@).0,
            ),
            final(self)@ == unread(from_separator(old(self)@ + bytes@)),
            out.error is None ==> final(self)@ == complete_records(old(self)@ + bytes@).1,
    {
        let ghost before = self.buffer@;
        let mut i: usize = 0;
        while i < bytes.len()
            invariant
                i <= bytes.len(),
                self.buffer@ == before + bytes@.take(i as int),
            decreases bytes.len() - i,
        {
            self.buffer.push(bytes[i]);
            i = i + 1;
            assert(self.buffer@ =~= before + bytes@.take(i as int));
        }
        assert(bytes@.take(i as int) =~= bytes@);
        drain_complete_git_records(&mut self.buffer)
    }

    /// Hands out the last commit, which nothing follows, once the stream has ended.
    pub fn finish(self) -> (r: Result<Option<ParsedGitRecord>, GitHistoryError>)
        ensures
            match r {
                Ok(None) => last_records(self@).len() == 0,
                Ok(Some(parsed)) => last_records(self@).len() == 1 && record_value(
                    last_records(self@)[0],
                ) == Ok::<ParsedGitRecordView, GitHistoryErrorView>(parsed.deep_view()),
                Err(fault) => last_records(self@).len() == 1 && record_value(
                    last_records(self@)[0],
                ) == Err::<ParsedGitRecordView, GitHistoryErrorView>(fault.deep_view()),
            },
    {
        let mut buffer = self.buffer;
        drain_final_git_record(&mut buffer)
    }
}

/// The record in what is left at the end of a stream, where there is one.
pub open spec fn last_records(rest: Seq<u8>) -> Seq<Seq<u8>> {
    if from_separator(rest).len() > 1 {
        seq![from_separator(rest)]
    } else {
        Seq::empty()
    }
}

/// The records that a reader gets out of reads, one after the other, and what is left.
pub open spec fn fed(reads: Seq<Seq<u8>>) -> (Seq<Seq<u8>>, Seq<u8>)
    decreases reads.len(),
{
    if reads.len() == 0 {
        (Seq::empty(), Seq::empty())
    } else {
        let before = fed(reads.drop_last());
        let now = complete_records(before.1 + reads.last());
        (before.0 + now.0, now.1)
    }
}

/// All records of a stream.
pub open spec fn stream_records(stream: Seq<u8>) -> Seq<Seq<u8>> {
    complete_records(stream).0 + last_records(complete_records(stream).1)
}

/// However a stream is cut into reads, the reader gets all its records in their order.
pub proof fn reads_yield_the_stream(reads: Seq<Seq<u8>>)
    ensures
        fed(reads) == complete_records(reads.flatten()),
        fed(reads).0 + last_records(fed(reads).1) == stream_records(reads.flatten()),
    decreases reads.len(),
{
    if reads.len() == 0 {
        assert(reads.flatten() =~= Seq::<u8>::empty());
        assert(from_separator(Seq::<u8>::empty()) =~= Seq::<u8>::empty());
        assert(framed(Seq::<u8>::empty()).0 =~= Seq::<Seq<u8>>::empty());
    } else {
        let front = reads.drop_last();
        reads_yield_the_stream(front);
        records_do_not_depend_on_reads(front.flatten(), reads.last());
        assert(front.push(reads.last()) =~= reads);
        front.lemma_flatten_push(reads.last());
    }
}

} // verus!
