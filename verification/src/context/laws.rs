//! What holds of every context estimate.

use vstd::prelude::*;

use crate::context;
use crate::context::{
    ContextGroupRow, ContextOptions, ContextSkippedReason, ContextSkippedRow,
    ContextSkippedRowView,
};
use crate::order;
use crate::scan::{ContentKind, FileRecordView};
use crate::table;
use crate::text;

verus! {

/// Whether reading a file failed.
pub open spec fn failed(file: FileRecordView) -> bool {
    exists|i: int|
        0 <= i < file.warnings.len() && ((#[trigger] file.warnings[i]).code == "metadata_failed"@
            || file.warnings[i].code == "read_failed"@)
}

/// Whether the options leave a file out.
pub open spec fn is_filtered(file: FileRecordView, options: ContextOptions) -> bool {
    (file.is_generated && options.exclude_generated) || (file.is_vendor && options.exclude_vendor)
}

/// Whether a file is counted, with `n` bytes.
pub open spec fn is_counted(file: FileRecordView, options: ContextOptions, n: u64) -> bool {
    !is_filtered(file, options) && !failed(file) && file.content == ContentKind::Text
        && file.byte_size == Some(n)
}

/// Whether a file is left out for a reason.
pub open spec fn is_left_out(
    file: FileRecordView,
    options: ContextOptions,
    reason: ContextSkippedReason,
) -> bool {
    match reason {
        ContextSkippedReason::ExcludedGenerated => file.is_generated && options.exclude_generated,
        ContextSkippedReason::ExcludedVendor => file.is_vendor && options.exclude_vendor && !(
        file.is_generated && options.exclude_generated),
        ContextSkippedReason::Unreadable => !is_filtered(file, options) && failed(file),
        ContextSkippedReason::Binary => !is_filtered(file, options) && !failed(file) && file.content
            == ContentKind::Binary,
        ContextSkippedReason::UnknownContent => !is_filtered(file, options) && !failed(file)
            && file.content == ContentKind::Unknown,
        ContextSkippedReason::MissingByteSize => !is_filtered(file, options) && !failed(file)
            && file.content == ContentKind::Text && file.byte_size is None,
    }
}

/// Whether so many tokens are a quarter of so many bytes, rounded up.
pub open spec fn is_quarter(tokens: int, bytes: int) -> bool {
    4 * tokens - 4 < bytes <= 4 * tokens
}

proof fn fate_is_what_is_seen(file: FileRecordView, options: ContextOptions)
    ensures
        context::could_not_read(file) == failed(file),
        forall|n: u64| #[trigger]
            is_counted(file, options, n) == (context::fate(file, options) == Ok::<
                u64,
                ContextSkippedReason,
            >(n)),
        forall|reason: ContextSkippedReason| #[trigger]
            is_left_out(file, options, reason) == (context::fate(file, options) == Err::<
                u64,
                ContextSkippedReason,
            >(reason)),
{
}

/// A file that is counted adds one file, its bytes, and a quarter of them in tokens, and nothing
/// else.
pub proof fn counted_files_add_their_bytes(
    files: Seq<FileRecordView>,
    options: ContextOptions,
    file: FileRecordView,
    n: u64,
)
    requires
        is_counted(file, options, n),
        files.len() < u64::MAX,
        context::estimate(files.push(file), options).summary.included_bytes < u64::MAX,
        context::estimate(files.push(file), options).summary.estimated_tokens < u64::MAX,
    ensures
        ({
            let all = context::estimate(files.push(file), options).summary;
            let before = context::estimate(files, options).summary;
            &&& all.total_files == before.total_files + 1
            &&& all.included_files == before.included_files + 1
            &&& all.skipped_files == before.skipped_files
            &&& all.included_bytes == before.included_bytes + n
            &&& is_quarter(all.estimated_tokens - before.estimated_tokens, n as int)
            &&& all.filtered_generated_files == before.filtered_generated_files
            &&& all.filtered_vendor_files == before.filtered_vendor_files
        }),
{
    fate_is_what_is_seen(file, options);
    assert(files.push(file).drop_last() =~= files);
    context::every_file_is_counted_or_left_out(files, options);
    context::every_file_is_counted_or_left_out(files.push(file), options);
}

/// A file that is left out adds one file to those left out, and to those left out for its reason.
pub proof fn files_left_out_add_nothing(
    files: Seq<FileRecordView>,
    options: ContextOptions,
    file: FileRecordView,
    reason: ContextSkippedReason,
)
    requires
        is_left_out(file, options, reason),
        files.len() < u64::MAX,
    ensures
        ({
            let all = context::estimate(files.push(file), options).summary;
            let before = context::estimate(files, options).summary;
            &&& all.total_files == before.total_files + 1
            &&& all.included_files == before.included_files
            &&& all.skipped_files == before.skipped_files + 1
            &&& all.included_bytes == before.included_bytes
            &&& all.estimated_tokens == before.estimated_tokens
            &&& all.filtered_generated_files == before.filtered_generated_files + (if reason
                == ContextSkippedReason::ExcludedGenerated {
                1int
            } else {
                0
            })
            &&& all.filtered_vendor_files == before.filtered_vendor_files + (if reason
                == ContextSkippedReason::ExcludedVendor {
                1int
            } else {
                0
            })
        }),
{
    fate_is_what_is_seen(file, options);
    assert(files.push(file).drop_last() =~= files);
    context::every_file_is_counted_or_left_out(files, options);
    context::every_file_is_counted_or_left_out(files.push(file), options);
    left_out_is_few(files, options, ContextSkippedReason::ExcludedGenerated);
    left_out_is_few(files, options, ContextSkippedReason::ExcludedVendor);
}

proof fn left_out_is_few(
    files: Seq<FileRecordView>,
    options: ContextOptions,
    reason: ContextSkippedReason,
)
    ensures
        context::left_out_for(files, options, reason) <= files.len(),
    decreases files.len(),
{
    if files.len() > 0 {
        left_out_is_few(files.drop_last(), options, reason);
    }
}

/// Every file is counted or left out for one reason.
pub proof fn files_have_one_fate(file: FileRecordView, options: ContextOptions)
    ensures
        (exists|n: u64| is_counted(file, options, n)) <==> !exists|reason: ContextSkippedReason|
            is_left_out(file, options, reason),
        forall|a: ContextSkippedReason, b: ContextSkippedReason|
            is_left_out(file, options, a) && is_left_out(file, options, b) ==> a == b,
{
    fate_is_what_is_seen(file, options);
    match context::fate(file, options) {
        Ok(n) => {
            assert(is_counted(file, options, n));
        },
        Err(reason) => {
            assert(is_left_out(file, options, reason));
        },
    }
}

proof fn row_is_left_out(
    files: Seq<FileRecordView>,
    options: ContextOptions,
    i: int,
    reason: ContextSkippedReason,
)
    requires
        0 <= i < files.len(),
        is_left_out(files[i], options, reason),
    ensures
        context::left_out(files, options).contains(
            ContextSkippedRowView { path: files[i].path, reason },
        ),
    decreases files.len(),
{
    let one = ContextSkippedRowView { path: files[i].path, reason };
    let all = context::left_out(files, options);
    fate_is_what_is_seen(files[i], options);
    if i < files.len() - 1 {
        let front = files.drop_last();
        assert(front[i] == files[i]);
        row_is_left_out(front, options, i, reason);
        let before = context::left_out(front, options);
        let k = choose|k: int| 0 <= k < before.len() && before[k] == one;
        assert(all[k] == one);
    } else {
        assert(all[all.len() - 1] == one);
    }
}

/// Every file that is left out is listed with its reason.
pub proof fn files_left_out_are_listed(
    files: Seq<FileRecordView>,
    options: ContextOptions,
    i: int,
    reason: ContextSkippedReason,
) -> (k: int)
    requires
        0 <= i < files.len(),
        is_left_out(files[i], options, reason),
    ensures
        0 <= k < context::estimate(files, options).skipped.len(),
        context::estimate(files, options).skipped[k].path == files[i].path,
        context::estimate(files, options).skipped[k].reason == reason,
{
    let all = context::left_out(files, options);
    let lt = order::by_key::<ContextSkippedRow>();
    let one = ContextSkippedRowView { path: files[i].path, reason };
    row_is_left_out(files, options, i, reason);
    order::sorted_by_permutes(all, lt);
    order::contains_by_multiset(all, order::sorted_by(all, lt), one);
    let rows = context::estimate(files, options).skipped;
    choose|k: int| 0 <= k < rows.len() && rows[k] == one
}

/// Whether a file belongs to a group: the directory that its path starts with, or `.` where it
/// starts with none.
pub open spec fn lies_in(path: Seq<char>, group: Seq<char>) -> bool {
    ||| group.len() > 0 && group.len() < path.len() && !group.contains('/') && path.take(
        group.len() as int,
    ) == group && path[group.len() as int] == '/'
    ||| group == "."@ && (!path.contains('/') || path[0] == '/')
}

proof fn groups_are_first_directories(path: Seq<char>, group: Seq<char>)
    ensures
        lies_in(path, group) <==> context::group_of(path) == group,
{
    let first = text::split_on(path, '/')[0];
    text::laws::first_pieces_end_at_a_separator(path, '/');
    reveal_strlit(".");
    if path.len() > 0 && path[0] == '/' {
        assert(path.contains('/'));
        assert(first.len() == 0) by {
            if first.len() > 0 {
                assert(first[0] == path[0]);
                assert(first.contains('/'));
            }
        }
        if lies_in(path, group) && group != "."@ {
            assert(group[0] == path.take(group.len() as int)[0]);
            assert(group.contains('/'));
        }
        if group == "."@ {
            assert(group[0] == '.');
        }
    } else if first.len() == path.len() {
        assert(path.take(path.len() as int) =~= path);
        assert(first == path);
        assert(!path.contains('/'));
        if lies_in(path, group) && group != "."@ {
            assert(path.contains(path[group.len() as int]));
        }
    } else {
        assert(path.contains(path[first.len() as int]));
        assert(first != path);
        if first.len() == 0 {
            assert(path[0] == '/');
        }
        if lies_in(path, group) {
            if group.len() < first.len() {
                assert(first[group.len() as int] == path[group.len() as int]);
                assert(first.contains('/'));
            } else if group.len() > first.len() {
                assert(group[first.len() as int] == path.take(group.len() as int)[first.len() as int]);
                assert(group.contains('/'));
            } else {
                assert(group =~= first);
            }
        }
    }
}

/// The places of the files of a group that are counted.
pub open spec fn members(
    files: Seq<FileRecordView>,
    options: ContextOptions,
    group: Seq<char>,
) -> Set<int> {
    Set::new(
        |i: int|
            0 <= i < files.len() && lies_in(files[i].path, group) && exists|n: u64|
                is_counted(files[i], options, n),
    )
}

proof fn members_are_counted(
    files: Seq<FileRecordView>,
    options: ContextOptions,
    group: Seq<char>,
)
    ensures
        members(files, options, group).finite(),
        members(files, options, group).len() == context::group_files(files, options, group),
        members(files, options, group).len() <= files.len(),
    decreases files.len(),
{
    let here = members(files, options, group);
    if files.len() == 0 {
        assert(here =~= Set::empty());
    } else {
        let front = files.drop_last();
        let last = files.len() - 1;
        members_are_counted(front, options, group);
        fate_is_what_is_seen(files[last], options);
        groups_are_first_directories(files[last].path, group);
        let before = members(front, options, group);
        assert(!before.contains(last));
        if here.contains(last) {
            assert(here =~= before.insert(last));
        } else {
            if let Ok(n) = context::fate(files[last], options) {
                assert(is_counted(files[last], options, n));
            }
            assert(here =~= before);
        }
    }
}

proof fn group_is_listed(files: Seq<FileRecordView>, options: ContextOptions, i: int, n: u64)
    requires
        0 <= i < files.len(),
        is_counted(files[i], options, n),
    ensures
        context::group_paths(files, options).contains(context::group_of(files[i].path)),
    decreases files.len(),
{
    fate_is_what_is_seen(files[i], options);
    if i < files.len() - 1 {
        assert(files.drop_last()[i] == files[i]);
        group_is_listed(files.drop_last(), options, i, n);
    }
}

proof fn groups_are_finite(files: Seq<FileRecordView>, options: ContextOptions)
    ensures
        context::group_paths(files, options).finite(),
    decreases files.len(),
{
    if files.len() > 0 {
        groups_are_finite(files.drop_last(), options);
    }
}

/// Every file that is counted belongs to a row.
pub proof fn counted_files_have_a_group(
    files: Seq<FileRecordView>,
    options: ContextOptions,
    i: int,
    n: u64,
) -> (k: int)
    requires
        0 <= i < files.len(),
        is_counted(files[i], options, n),
    ensures
        0 <= k < context::estimate(files, options).groups.len(),
        lies_in(files[i].path, context::estimate(files, options).groups[k].path),
{
    let group = context::group_of(files[i].path);
    let set = context::group_paths(files, options);
    let listed = table::listing(set);
    group_is_listed(files, options, i, n);
    groups_are_finite(files, options);
    table::listing_of_finite(set);
    assert(listed.to_set().contains(group));
    let m = choose|m: int| 0 <= m < listed.len() && listed[m] == group;
    let rows = context::group_rows(files, options);
    let one = context::group_row(files, options, group);
    assert(rows[m] == one);
    assert(rows.contains(one));
    let lt = order::by_key::<ContextGroupRow>();
    order::sorted_by_permutes(rows, lt);
    order::contains_by_multiset(rows, order::sorted_by(rows, lt), one);
    groups_are_first_directories(files[i].path, group);
    let all = context::estimate(files, options).groups;
    choose|k: int| 0 <= k < all.len() && all[k] == one
}

proof fn row_is_of_its_group(files: Seq<FileRecordView>, options: ContextOptions, k: int)
    requires
        0 <= k < context::estimate(files, options).groups.len(),
    ensures
        ({
            let row = context::estimate(files, options).groups[k];
            row == context::group_row(files, options, row.path)
        }),
{
    let rows = context::group_rows(files, options);
    let lt = order::by_key::<ContextGroupRow>();
    let all = context::estimate(files, options).groups;
    order::sorted_by_permutes(rows, lt);
    assert(all.contains(all[k]));
    order::contains_by_multiset(all, rows, all[k]);
    let m = choose|m: int| 0 <= m < rows.len() && rows[m] == all[k];
    assert(rows[m] == context::group_row(
        files,
        options,
        table::listing(context::group_paths(files, options))[m],
    ));
}

/// A row counts the files of its group.
pub proof fn rows_count_their_files(files: Seq<FileRecordView>, options: ContextOptions, k: int)
    requires
        0 <= k < context::estimate(files, options).groups.len(),
        files.len() <= u64::MAX,
    ensures
        ({
            let row = context::estimate(files, options).groups[k];
            row.file_count == members(files, options, row.path).len()
        }),
{
    row_is_of_its_group(files, options, k);
    members_are_counted(files, options, context::estimate(files, options).groups[k].path);
}

proof fn other_files_add_nothing(
    files: Seq<FileRecordView>,
    options: ContextOptions,
    group: Seq<char>,
)
    requires
        members(files, options, group) =~= Set::<int>::empty(),
    ensures
        context::group_bytes(files, options, group) == 0,
        context::group_tokens(files, options, group) == 0,
    decreases files.len(),
{
    if files.len() > 0 {
        let front = files.drop_last();
        let last = files.len() - 1;
        assert forall|i: int| !members(front, options, group).contains(i) by {
            if members(front, options, group).contains(i) {
                assert(members(files, options, group).contains(i));
            }
        }
        other_files_add_nothing(front, options, group);
        fate_is_what_is_seen(files[last], options);
        groups_are_first_directories(files[last].path, group);
        assert(!members(files, options, group).contains(last));
        if let Ok(n) = context::fate(files[last], options) {
            assert(is_counted(files[last], options, n));
        }
    }
}

proof fn one_file_adds_its_bytes(
    files: Seq<FileRecordView>,
    options: ContextOptions,
    group: Seq<char>,
    i: int,
    n: u64,
)
    requires
        0 <= i < files.len(),
        is_counted(files[i], options, n),
        members(files, options, group) =~= set![i],
    ensures
        context::group_bytes(files, options, group) == n,
        is_quarter(context::group_tokens(files, options, group) as int, n as int),
    decreases files.len(),
{
    let front = files.drop_last();
    let last = files.len() - 1;
    fate_is_what_is_seen(files[last], options);
    groups_are_first_directories(files[last].path, group);
    if i == last {
        assert(members(files, options, group).contains(i));
        assert forall|m: int| !members(front, options, group).contains(m) by {
            if members(front, options, group).contains(m) {
                assert(members(files, options, group).contains(m));
            }
        }
        other_files_add_nothing(front, options, group);
    } else {
        assert(!members(files, options, group).contains(last));
        if let Ok(m) = context::fate(files[last], options) {
            assert(is_counted(files[last], options, m));
        }
        assert(members(files, options, group).contains(i));
        assert forall|m: int| members(front, options, group).contains(m) == (m == i) by {
            if members(front, options, group).contains(m) {
                assert(members(files, options, group).contains(m));
            }
        }
        assert(front[i] == files[i]);
        one_file_adds_its_bytes(front, options, group, i, n);
    }
}

/// A row of one file has its bytes, and a quarter of them in tokens.
pub proof fn rows_of_one_file_have_its_bytes(
    files: Seq<FileRecordView>,
    options: ContextOptions,
    k: int,
    i: int,
    n: u64,
)
    requires
        0 <= k < context::estimate(files, options).groups.len(),
        0 <= i < files.len(),
        is_counted(files[i], options, n),
        members(files, options, context::estimate(files, options).groups[k].path) =~= set![i],
    ensures
        ({
            let row = context::estimate(files, options).groups[k];
            &&& row.byte_size == n
            &&& is_quarter(row.estimated_tokens as int, n as int)
        }),
{
    row_is_of_its_group(files, options, k);
    one_file_adds_its_bytes(
        files,
        options,
        context::estimate(files, options).groups[k].path,
        i,
        n,
    );
}

/// The groups with the most tokens come first.
pub proof fn larger_groups_come_first(
    files: Seq<FileRecordView>,
    options: ContextOptions,
    i: int,
    j: int,
)
    requires
        0 <= i < j < context::estimate(files, options).groups.len(),
    ensures
        context::estimate(files, options).groups[i].estimated_tokens >= context::estimate(
            files,
            options,
        ).groups[j].estimated_tokens,
{
    let rows = context::group_rows(files, options);
    let lt = order::by_key::<ContextGroupRow>();
    order::by_key_is_strict_weak::<ContextGroupRow>();
    order::sorted_by_is_sorted(rows, lt);
    let all = context::estimate(files, options).groups;
    let (a, b) = (all[i], all[j]);
    assert(!lt(b, a));
    let (x, y) = (
        <ContextGroupRow as order::Ordered>::key(b),
        <ContextGroupRow as order::Ordered>::key(a),
    );
    reveal_with_fuel(order::key_lt_from, 3);
    assert(lt(b, a) == order::key_lt_from(x, y, 0));
    assert(x[0] == order::KeyPart::Number(-(b.estimated_tokens as int)));
    assert(y[0] == order::KeyPart::Number(-(a.estimated_tokens as int)));
}

/// A budget is what is used and what remains, or what is used is the budget and what goes over it;
/// without a budget nothing is compared.
pub proof fn budgets_are_compared(files: Seq<FileRecordView>, options: ContextOptions)
    ensures
        ({
            let out = context::estimate(files, options);
            let used = out.summary.estimated_tokens;
            &&& out.options == options
            &&& options.budget_tokens is None ==> out.budget is None
            &&& options.budget_tokens matches Some(budget) ==> {
                &&& out.budget matches Some(status)
                &&& status.budget_tokens == budget
                &&& status.estimated_tokens == used
                &&& status.remaining_tokens is Some <==> used <= budget
                &&& status.over_budget_tokens is Some <==> budget <= used
                &&& status.remaining_tokens matches Some(rest) ==> used + rest == budget
                &&& status.over_budget_tokens matches Some(over) ==> budget + over == used
            }
        }),
{
}

} // verus!
