//! What the records of a history say.

use vstd::prelude::*;

use crate::git::stream;
use crate::git::{GitChangeKind, GitFileChange, GitFileChangeView, GitHistoryErrorView};
use crate::numbers;
use crate::order;
use crate::text;

verus! {

/// Whether bytes are the text `s`.
pub open spec fn is_text(bytes: Seq<u8>, s: Seq<char>) -> bool {
    vstd::utf8::valid_utf8(bytes) && vstd::utf8::decode_utf8(bytes) == s
}

/// The header of a record: its first five fields, and an empty one behind them.
pub struct Header {
    pub commit_id: Seq<char>,
    pub commit_time: i64,
    pub name: Seq<char>,
    pub email: Seq<char>,
    pub parents: Seq<Seq<char>>,
}

/// Whether a record starts with a header, and has these fields.
pub open spec fn is_headed(record: Seq<u8>, fields: Seq<Seq<u8>>, header: Header) -> bool {
    &&& record.len() > 0
    &&& record[0] == 0x1E
    &&& fields == text::split_on(record.skip(1), 0u8)
    &&& fields.len() >= 6
    &&& is_text(fields[0], header.commit_id)
    &&& is_text(fields[1], numbers::signed_decimal(header.commit_time as int))
    &&& is_text(fields[2], header.name)
    &&& is_text(fields[3], header.email)
    &&& is_text(fields[4], text::joined(header.parents, " "@))
    &&& header.parents.len() <= usize::MAX
    &&& forall|i: int|
        0 <= i < header.parents.len() ==> text::laws::is_word(#[trigger] header.parents[i])
    &&& fields[5].len() == 0
}

/// Whether an event is of the commit of a header.
pub open spec fn is_of(change: GitFileChangeView, header: Header) -> bool {
    &&& change.commit_id == header.commit_id
    &&& change.commit_time == header.commit_time
    &&& change.author == header.name + " <"@ + header.email + ">"@
    &&& change.parent_count == header.parents.len()
    &&& change.is_merge <==> header.parents.len() >= 2
}

proof fn header_is_read(record: Seq<u8>, fields: Seq<Seq<u8>>, header: Header)
    requires
        is_headed(record, fields, header),
    ensures
        stream::header_of(fields) matches Ok(read) && read.commit_id == header.commit_id
            && read.commit_time == header.commit_time && read.author == header.name + " <"@
            + header.email + ">"@ && read.parent_count == header.parents.len(),
{
    numbers::signed_decimal_round_trip(header.commit_time);
    text::laws::joined_words_are_words(header.parents);
}

/// What a record says is of the commit in its header.
pub proof fn events_are_of_their_commit(
    record: Seq<u8>,
    fields: Seq<Seq<u8>>,
    header: Header,
    i: int,
)
    requires
        is_headed(record, fields, header),
        stream::record_value(record) is Ok,
        0 <= i < (stream::record_value(record)->Ok_0).changes.len(),
    ensures
        (stream::record_value(record)->Ok_0).commit_id == header.commit_id,
        is_of((stream::record_value(record)->Ok_0).changes[i], header),
{
    header_is_read(record, fields, header);
    let read = stream::header_of(fields)->Ok_0;
    let rows = stream::read_rows(fields, 6, read.commit_id, stream::no_rows())->Ok_0;
    let events = rows.numstats.map_values(
        |row: (Seq<char>, nat, nat)| stream::change_of(read, rows.kinds, row),
    );
    let lt = order::by_key::<GitFileChange>();
    let sorted = order::sorted_by(events, lt);
    order::sorted_by_permutes(events, lt);
    assert(sorted.contains(sorted[i]));
    order::contains_by_multiset(sorted, events, sorted[i]);
    let k = choose|k: int| 0 <= k < events.len() && events[k] == sorted[i];
    assert(events[k] == stream::change_of(read, rows.kinds, rows.numstats[k]));
}

/// Whether bytes are a count.
pub open spec fn is_count(bytes: Seq<u8>, n: u64) -> bool {
    &&& bytes.len() > 0
    &&& forall|i: int| 0 <= i < bytes.len() ==> 48 <= #[trigger] bytes[i] <= 57
    &&& is_text(bytes, numbers::decimal(n as nat))
}

/// Whether bytes are a row of counts: added and deleted lines and a path, with tabs between them.
pub open spec fn is_count_row(token: Seq<u8>, added: u64, deleted: u64, path: Seq<char>) -> bool {
    exists|a: Seq<u8>, d: Seq<u8>, p: Seq<u8>|
        #![trigger a.push(9u8) + (d.push(9u8) + p)]
        token == a.push(9u8) + (d.push(9u8) + p) && is_count(a, added) && is_count(d, deleted)
            && is_text(p, path)
}

/// Whether a file belongs to the analysis itself.
pub open spec fn is_own_file(path: Seq<char>) -> bool {
    path == ".hotpath"@ || (path.len() >= 9 && path.take(9) == ".hotpath/"@)
}

/// A path with `/` for `\`.
pub open spec fn is_slashed(path: Seq<char>, written: Seq<char>) -> bool {
    path.len() == written.len() && forall|i: int|
        0 <= i < path.len() ==> #[trigger] path[i] == if written[i] == '\\' {
            '/'
        } else {
            written[i]
        }
}

proof fn count_rows_are_read(
    token: Seq<u8>,
    added: u64,
    deleted: u64,
    written: Seq<char>,
    path: Seq<char>,
    commit_id: Seq<char>,
)
    requires
        is_count_row(token, added, deleted, written),
        is_slashed(path, written),
    ensures
        token.len() > 0,
        token[0] != 58,
        stream::without_breaks(token) == token,
        stream::numstat_row(token, commit_id) == Ok::<
            Option<(Seq<char>, nat, nat)>,
            GitHistoryErrorView,
        >(Some((path, added as nat, deleted as nat))),
{
    let (a, d, p) = choose|a: Seq<u8>, d: Seq<u8>, p: Seq<u8>|
        #![trigger a.push(9u8) + (d.push(9u8) + p)]
        token == a.push(9u8) + (d.push(9u8) + p) && is_count(a, added) && is_count(d, deleted)
            && is_text(p, written);
    assert(token[0] == a[0]);
    let tail = d.push(9u8) + p;
    assert(!a.contains(9u8));
    assert(!d.contains(9u8));
    text::laws::pieces_come_apart(a, a, 9u8);
    text::laws::pieces_come_apart(d, d, 9u8);
    text::laws::pieces_of_both_sides(a, tail, 9u8);
    text::laws::pieces_of_both_sides(d, p, 9u8);
    text::split_on_not_empty(p, 9u8);
    let fields = text::split_on(token, 9u8);
    assert(fields[0] == a);
    assert(fields[1] == d);
    assert(fields.len() >= 3);
    assert(a != seq![45u8]) by {
        assert(seq![45u8][0] == 45);
    }
    assert(d != seq![45u8]) by {
        assert(seq![45u8][0] == 45);
    }
    numbers::unsigned_decimal_round_trip(added as nat, u64::MAX as nat);
    numbers::unsigned_decimal_round_trip(deleted as nat, u64::MAX as nat);
    assert(token.skip((a.len() + d.len() + 2) as int) =~= p);
    assert(stream::portable_path(written) =~= path);
}

proof fn own_files(path: Seq<char>)
    ensures
        stream::is_internal_path(path) == is_own_file(path),
{
    reveal_strlit(".hotpath/");
    assert(".hotpath/"@.len() == 9);
}

/// A row of counts gives an event with its path and its lines; without a status, the file counts
/// as modified. Nothing is said of the analysis's own files.
pub proof fn counts_are_events(
    record: Seq<u8>,
    fields: Seq<Seq<u8>>,
    header: Header,
    added: u64,
    deleted: u64,
    written: Seq<char>,
    path: Seq<char>,
)
    requires
        is_headed(record, fields, header),
        fields.len() == 7,
        is_count_row(fields[6], added, deleted, written),
        is_slashed(path, written),
    ensures
        stream::record_value(record) matches Ok(parsed) && {
            &&& parsed.numstat_records == 1
            &&& parsed.raw_records == 0
            &&& is_own_file(path) ==> parsed.changes.len() == 0
            &&& !is_own_file(path) ==> {
                &&& parsed.changes.len() == 1
                &&& is_of(parsed.changes[0], header)
                &&& parsed.changes[0].path == path
                &&& parsed.changes[0].added_lines == added
                &&& parsed.changes[0].deleted_lines == deleted
                &&& parsed.changes[0].change_kind == GitChangeKind::Modified
            }
        },
{
    header_is_read(record, fields, header);
    let read = stream::header_of(fields)->Ok_0;
    count_rows_are_read(fields[6], added, deleted, written, path, read.commit_id);
    own_files(path);
    reveal_with_fuel(stream::read_rows, 2);
    let none = stream::no_rows();
    let rows = none.with_numstat(path, added as nat, deleted as nat);
    assert(stream::read_rows(fields, 6, read.commit_id, none)->Ok_0 == rows);
    one_row_is_one_event(read, rows);
}

proof fn one_row_is_one_event(read: stream::CommitHeader, rows: stream::BodyRows)
    requires
        rows.numstats.len() <= 1,
    ensures
        ({
            let events = order::sorted_by(
                rows.numstats.map_values(
                    |row: (Seq<char>, nat, nat)| stream::change_of(read, rows.kinds, row),
                ),
                order::by_key::<GitFileChange>(),
            );
            &&& events.len() == rows.numstats.len()
            &&& events.len() == 1 ==> events[0] == stream::change_of(
                read,
                rows.kinds,
                rows.numstats[0],
            )
        }),
{
    let events = rows.numstats.map_values(
        |row: (Seq<char>, nat, nat)| stream::change_of(read, rows.kinds, row),
    );
    let lt = order::by_key::<GitFileChange>();
    let sorted = order::sorted_by(events, lt);
    order::sorted_by_permutes(events, lt);
    if events.len() == 1 {
        assert(sorted.contains(sorted[0]));
        order::contains_by_multiset(sorted, events, sorted[0]);
    }
}

/// Whether a letter is the status of a kind of change.
pub open spec fn is_letter_of(letter: u8, kind: GitChangeKind) -> bool {
    letter == match kind {
        GitChangeKind::Added => 0x41u8,
        GitChangeKind::Copied => 0x43u8,
        GitChangeKind::Deleted => 0x44u8,
        GitChangeKind::Modified => 0x4Du8,
        GitChangeKind::Renamed => 0x52u8,
        GitChangeKind::TypeChanged => 0x54u8,
    }
}

/// Whether bytes are a row of a status: a colon, and behind the last space the status.
pub open spec fn is_status_row(token: Seq<u8>, kind: GitChangeKind) -> bool {
    exists|front: Seq<u8>, status: Seq<u8>|
        #![trigger front.push(32u8) + status]
        token == front.push(32u8) + status && front.len() > 0 && front[0] == 58 && status.len() > 0
            && !status.contains(32u8) && is_letter_of(status[0], kind)
}

proof fn status_rows_are_read(token: Seq<u8>, kind: GitChangeKind)
    requires
        is_status_row(token, kind),
    ensures
        token.len() > 0,
        token[0] == 58,
        stream::without_breaks(token) == token,
        stream::raw_kind(token) == Some(kind),
{
    let (front, status) = choose|front: Seq<u8>, status: Seq<u8>|
        #![trigger front.push(32u8) + status]
        token == front.push(32u8) + status && front.len() > 0 && front[0] == 58 && status.len() > 0
            && !status.contains(32u8) && is_letter_of(status[0], kind);
    assert(token[0] == front[0]);
    text::laws::pieces_come_apart(front, status, 32u8);
    assert(text::split_on(token, 32u8).last() == status);
}

/// The status of a file is the kind of its event.
pub proof fn statuses_are_kinds(
    record: Seq<u8>,
    fields: Seq<Seq<u8>>,
    header: Header,
    kind: GitChangeKind,
    added: u64,
    deleted: u64,
    written: Seq<char>,
    path: Seq<char>,
)
    requires
        is_headed(record, fields, header),
        fields.len() == 9,
        is_status_row(fields[6], kind),
        kind != GitChangeKind::Renamed && kind != GitChangeKind::Copied,
        is_text(fields[7], written),
        is_count_row(fields[8], added, deleted, written),
        is_slashed(path, written),
        !is_own_file(path),
    ensures
        stream::record_value(record) matches Ok(parsed) && {
            &&& parsed.raw_records == 1
            &&& parsed.numstat_records == 1
            &&& parsed.changes.len() == 1
            &&& is_of(parsed.changes[0], header)
            &&& parsed.changes[0].path == path
            &&& parsed.changes[0].change_kind == kind
            &&& parsed.changes[0].added_lines == added
            &&& parsed.changes[0].deleted_lines == deleted
        },
{
    header_is_read(record, fields, header);
    let read = stream::header_of(fields)->Ok_0;
    status_rows_are_read(fields[6], kind);
    count_rows_are_read(fields[8], added, deleted, written, path, read.commit_id);
    own_files(path);
    assert(stream::portable_path(written) =~= path);
    reveal_with_fuel(stream::read_rows, 3);
    let none = stream::no_rows();
    let seen = none.with_raw().with_kind(written, kind);
    let rows = seen.with_numstat(path, added as nat, deleted as nat);
    assert(stream::read_rows(fields, 8, read.commit_id, seen)->Ok_0 == rows);
    assert(stream::read_rows(fields, 6, read.commit_id, none) == stream::read_rows(
        fields,
        8,
        read.commit_id,
        seen,
    ));
    one_row_is_one_event(read, rows);
}

/// A file that is renamed or copied is known by the path that it gets.
pub proof fn renamed_files_have_their_new_path(
    record: Seq<u8>,
    fields: Seq<Seq<u8>>,
    header: Header,
    kind: GitChangeKind,
    added: u64,
    deleted: u64,
    source: Seq<char>,
    written: Seq<char>,
    path: Seq<char>,
)
    requires
        is_headed(record, fields, header),
        fields.len() == 10,
        is_status_row(fields[6], kind),
        kind == GitChangeKind::Renamed || kind == GitChangeKind::Copied,
        is_text(fields[7], source),
        is_text(fields[8], written),
        is_count_row(fields[9], added, deleted, written),
        is_slashed(path, written),
        !is_own_file(path),
    ensures
        stream::record_value(record) matches Ok(parsed) && {
            &&& parsed.raw_records == 1
            &&& parsed.numstat_records == 1
            &&& parsed.changes.len() == 1
            &&& is_of(parsed.changes[0], header)
            &&& parsed.changes[0].path == path
            &&& parsed.changes[0].change_kind == kind
            &&& parsed.changes[0].added_lines == added
            &&& parsed.changes[0].deleted_lines == deleted
        },
{
    header_is_read(record, fields, header);
    let read = stream::header_of(fields)->Ok_0;
    status_rows_are_read(fields[6], kind);
    count_rows_are_read(fields[9], added, deleted, written, path, read.commit_id);
    own_files(path);
    assert(stream::portable_path(written) =~= path);
    reveal_with_fuel(stream::read_rows, 3);
    let none = stream::no_rows();
    let seen = none.with_raw().with_kind(written, kind);
    let rows = seen.with_numstat(path, added as nat, deleted as nat);
    assert(stream::read_rows(fields, 9, read.commit_id, seen)->Ok_0 == rows);
    assert(stream::read_rows(fields, 6, read.commit_id, none) == stream::read_rows(
        fields,
        9,
        read.commit_id,
        seen,
    ));
    one_row_is_one_event(read, rows);
}

/// A row of counts behind others adds its event to theirs.
proof fn rows_add_up(
    fields: Seq<Seq<u8>>,
    k: int,
    commit_id: Seq<char>,
    rows: stream::BodyRows,
    counts: Seq<(u64, u64, Seq<char>)>,
)
    requires
        0 <= k <= counts.len(),
        fields.len() == 6 + counts.len(),
        forall|i: int|
            0 <= i < counts.len() ==> is_count_row(
                #[trigger] fields[6 + i],
                counts[i].0,
                counts[i].1,
                counts[i].2,
            ) && !counts[i].2.contains('\\') && !is_own_file(counts[i].2),
    ensures
        stream::read_rows(fields, 6 + k, commit_id, rows) matches Ok(read) && {
            &&& read.kinds == rows.kinds
            &&& read.raw_records == rows.raw_records
            &&& read.numstat_records == rows.numstat_records + counts.len() - k
            &&& read.numstats == rows.numstats + counts.skip(k).map_values(
                |count: (u64, u64, Seq<char>)| (count.2, count.0 as nat, count.1 as nat),
            )
        },
    decreases counts.len() - k,
{
    let told = |count: (u64, u64, Seq<char>)| (count.2, count.0 as nat, count.1 as nat);
    if k < counts.len() {
        let (added, deleted, path) = counts[k];
        assert(is_count_row(fields[6 + k], added, deleted, path));
        assert(is_slashed(path, path)) by {
            assert forall|i: int| 0 <= i < path.len() implies #[trigger] path[i] != '\\' by {
                assert(path.contains(path[i]));
            }
        }
        count_rows_are_read(fields[6 + k], added, deleted, path, path, commit_id);
        own_files(path);
        let next = rows.with_numstat(path, added as nat, deleted as nat);
        rows_add_up(fields, k + 1, commit_id, next, counts);
        assert(counts.skip(k).map_values(told) =~= seq![told(counts[k])] + counts.skip(
            k + 1,
        ).map_values(told));
        assert(next.numstats + counts.skip(k + 1).map_values(told) =~= rows.numstats
            + counts.skip(k).map_values(told));
    } else {
        assert(rows.numstats + counts.skip(k).map_values(told) =~= rows.numstats);
    }
}

/// Every row of counts gives an event, and no other events are given.
pub proof fn every_row_of_counts_is_an_event(
    record: Seq<u8>,
    fields: Seq<Seq<u8>>,
    header: Header,
    counts: Seq<(u64, u64, Seq<char>)>,
    i: int,
) -> (k: int)
    requires
        is_headed(record, fields, header),
        fields.len() == 6 + counts.len(),
        counts.len() <= u64::MAX,
        forall|i: int|
            0 <= i < counts.len() ==> is_count_row(
                #[trigger] fields[6 + i],
                counts[i].0,
                counts[i].1,
                counts[i].2,
            ) && !counts[i].2.contains('\\') && !is_own_file(counts[i].2),
        0 <= i < counts.len(),
    ensures
        stream::record_value(record) matches Ok(parsed) && {
            &&& parsed.numstat_records == counts.len()
            &&& parsed.changes.len() == counts.len()
            &&& 0 <= k < counts.len()
            &&& parsed.changes[k].added_lines == counts[i].0
            &&& parsed.changes[k].deleted_lines == counts[i].1
            &&& parsed.changes[k].path == counts[i].2
        },
{
    header_is_read(record, fields, header);
    let read = stream::header_of(fields)->Ok_0;
    rows_add_up(fields, 0, read.commit_id, stream::no_rows(), counts);
    let rows = stream::read_rows(fields, 6, read.commit_id, stream::no_rows())->Ok_0;
    let told = |count: (u64, u64, Seq<char>)| (count.2, count.0 as nat, count.1 as nat);
    assert(counts.skip(0) =~= counts);
    assert(stream::no_rows().numstats + counts.map_values(told) =~= counts.map_values(told));
    let events = rows.numstats.map_values(
        |row: (Seq<char>, nat, nat)| stream::change_of(read, rows.kinds, row),
    );
    let lt = order::by_key::<GitFileChange>();
    let sorted = order::sorted_by(events, lt);
    order::sorted_by_permutes(events, lt);
    assert(rows.numstats[i] == told(counts[i]));
    assert(events.contains(events[i]));
    order::contains_by_multiset(events, sorted, events[i]);
    choose|k: int| 0 <= k < sorted.len() && sorted[k] == events[i]
}

/// A record that does not start with the separator is refused.
pub proof fn records_start_with_the_separator(record: Seq<u8>)
    requires
        record.len() == 0 || record[0] != 0x1E,
    ensures
        stream::record_value(record) is Err,
{
}

} // verus!
