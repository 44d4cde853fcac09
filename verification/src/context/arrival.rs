//! An estimate does not depend on the order of the files.

use vstd::prelude::*;

use crate::context;
use crate::context::{
    ContextOptions, ContextSkippedReason, ContextSkippedRow, ContextSkippedRowView,
};
use crate::order;
use crate::order::{KeyPart, Ordered};
use crate::scan::walk;
use crate::scan::FileRecordView;
use crate::text;

verus! {

/// The row of a file that is left out, if it is.
spec fn row_of(file: FileRecordView, options: ContextOptions) -> Seq<ContextSkippedRowView> {
    match context::fate(file, options) {
        Ok(_) => Seq::empty(),
        Err(reason) => seq![ContextSkippedRowView { path: file.path, reason }],
    }
}

/// What a file adds to a group.
proof fn group_without(
    files: Seq<FileRecordView>,
    k: int,
    options: ContextOptions,
    group: Seq<char>,
)
    requires
        0 <= k < files.len(),
    ensures
        ({
            let rest = files.remove(k);
            &&& context::group_bytes(files, options, group) == context::group_bytes(
                rest,
                options,
                group,
            ) + context::bytes_for(files[k], options, group)
            &&& context::group_tokens(files, options, group) == context::group_tokens(
                rest,
                options,
                group,
            ) + context::tokens_for(files[k], options, group)
            &&& context::group_files(files, options, group) == context::group_files(
                rest,
                options,
                group,
            ) + context::counts_for(files[k], options, group)
            &&& context::group_paths(files, options).contains(group) == (context::group_paths(
                rest,
                options,
            ).contains(group) || (context::fate(files[k], options) is Ok && context::group_of(
                files[k].path,
            ) == group))
        }),
    decreases files.len(),
{
    let rest = files.remove(k);
    if k == files.len() - 1 {
        assert(rest =~= files.drop_last());
    } else {
        let front = files.drop_last();
        group_without(front, k, options, group);
        assert(rest.drop_last() =~= front.remove(k));
        assert(rest.last() == files.last());
        assert(front[k] == files[k]);
    }
}

/// What a file adds to the whole.
proof fn whole_without(
    files: Seq<FileRecordView>,
    k: int,
    options: ContextOptions,
    reason: ContextSkippedReason,
)
    requires
        0 <= k < files.len(),
    ensures
        ({
            let rest = files.remove(k);
            let one = seq![files[k]];
            &&& context::all_bytes(files, options) == context::all_bytes(rest, options)
                + context::all_bytes(one, options)
            &&& context::all_tokens(files, options) == context::all_tokens(rest, options)
                + context::all_tokens(one, options)
            &&& context::counted_files(files, options) == context::counted_files(rest, options)
                + context::counted_files(one, options)
            &&& context::left_out_for(files, options, reason) == context::left_out_for(
                rest,
                options,
                reason,
            ) + context::left_out_for(one, options, reason)
        }),
    decreases files.len(),
{
    let rest = files.remove(k);
    let one = seq![files[k]];
    reveal_with_fuel(context::all_bytes, 2);
    reveal_with_fuel(context::all_tokens, 2);
    reveal_with_fuel(context::counted_files, 2);
    reveal_with_fuel(context::left_out_for, 2);
    assert(one.drop_last() =~= Seq::empty());
    assert(one.last() == files[k]);
    if k == files.len() - 1 {
        assert(rest =~= files.drop_last());
    } else {
        let front = files.drop_last();
        whole_without(front, k, options, reason);
        assert(rest.drop_last() =~= front.remove(k));
        assert(rest.last() == files.last());
        assert(seq![front[k]] =~= one);
    }
}

/// What a file adds to the rows of files that are left out.
proof fn rows_without(files: Seq<FileRecordView>, k: int, options: ContextOptions)
    requires
        0 <= k < files.len(),
    ensures
        context::left_out(files, options).to_multiset() == context::left_out(
            files.remove(k),
            options,
        ).to_multiset().add(row_of(files[k], options).to_multiset()),
    decreases files.len(),
{
    broadcast use vstd::seq_lib::group_to_multiset_ensures;

    let rest = files.remove(k);
    let front = files.drop_last();
    let last = row_of(files.last(), options);
    let added = row_of(files[k], options);
    assert(context::left_out(files, options) =~= context::left_out(front, options) + last);
    vstd::seq_lib::lemma_multiset_commutative(context::left_out(front, options), last);
    if k == files.len() - 1 {
        assert(rest =~= front);
    } else {
        rows_without(front, k, options);
        assert(rest.drop_last() =~= front.remove(k));
        assert(rest.last() == files.last());
        let inner = context::left_out(front.remove(k), options);
        assert(context::left_out(rest, options) =~= inner + last);
        vstd::seq_lib::lemma_multiset_commutative(inner, last);
        assert(front[k] == files[k]);
        assert(inner.to_multiset().add(added.to_multiset()).add(last.to_multiset())
            =~= inner.to_multiset().add(last.to_multiset()).add(added.to_multiset()));
    }
}

/// All figures are the same in any order of the files.
proof fn figures_ignore_arrival(
    first: Seq<FileRecordView>,
    second: Seq<FileRecordView>,
    options: ContextOptions,
    group: Seq<char>,
    reason: ContextSkippedReason,
)
    requires
        first.to_multiset() == second.to_multiset(),
    ensures
        first.len() == second.len(),
        context::group_bytes(first, options, group) == context::group_bytes(second, options, group),
        context::group_tokens(first, options, group) == context::group_tokens(
            second,
            options,
            group,
        ),
        context::group_files(first, options, group) == context::group_files(second, options, group),
        context::group_paths(first, options).contains(group) == context::group_paths(
            second,
            options,
        ).contains(group),
        context::all_bytes(first, options) == context::all_bytes(second, options),
        context::all_tokens(first, options) == context::all_tokens(second, options),
        context::counted_files(first, options) == context::counted_files(second, options),
        context::left_out_for(first, options, reason) == context::left_out_for(
            second,
            options,
            reason,
        ),
        context::left_out(first, options).to_multiset() == context::left_out(
            second,
            options,
        ).to_multiset(),
    decreases first.len(),
{
    first.to_multiset_ensures();
    second.to_multiset_ensures();
    if first.len() == 0 {
        assert(first =~= second);
    } else {
        let l = first.len() - 1;
        let x = first[l];
        assert(first.contains(x));
        order::contains_by_multiset(first, second, x);
        let k = choose|k: int| 0 <= k < second.len() && second[k] == x;
        let a = first.remove(l);
        let b = second.remove(k);
        assert(a.to_multiset() == first.to_multiset().remove(x)) by {
            vstd::seq_lib::to_multiset_remove(first, l);
        }
        assert(b.to_multiset() == second.to_multiset().remove(x)) by {
            vstd::seq_lib::to_multiset_remove(second, k);
        }
        figures_ignore_arrival(a, b, options, group, reason);
        group_without(first, l, options, group);
        group_without(second, k, options, group);
        whole_without(first, l, options, reason);
        whole_without(second, k, options, reason);
        rows_without(first, l, options);
        rows_without(second, k, options);
    }
}

/// A row that is left out is that of some file.
proof fn row_has_a_file(files: Seq<FileRecordView>, options: ContextOptions, i: int) -> (j: int)
    requires
        0 <= i < context::left_out(files, options).len(),
    ensures
        0 <= j < files.len(),
        row_of(files[j], options) == seq![context::left_out(files, options)[i]],
    decreases files.len(),
{
    let front = files.drop_last();
    let l = files.len() - 1;
    if i < context::left_out(front, options).len() {
        let j = row_has_a_file(front, options, i);
        assert(front[j] == files[j]);
        assert(context::left_out(files, options)[i] == context::left_out(front, options)[i]);
        j
    } else {
        assert(files[l] == files.last());
        l
    }
}

/// In whatever order the files come, the same estimate comes out.
pub proof fn estimate_ignores_arrival(
    first: Seq<FileRecordView>,
    second: Seq<FileRecordView>,
    options: ContextOptions,
)
    requires
        first.to_multiset() == second.to_multiset(),
        walk::paths_differ(first),
    ensures
        context::estimate(first, options) == context::estimate(second, options),
{
    let reason = ContextSkippedReason::ExcludedGenerated;
    figures_ignore_arrival(first, second, options, Seq::empty(), reason);
    figures_ignore_arrival(
        first,
        second,
        options,
        Seq::empty(),
        ContextSkippedReason::ExcludedVendor,
    );
    assert forall|group: Seq<char>|
        context::group_paths(first, options).contains(group) == context::group_paths(
            second,
            options,
        ).contains(group) && #[trigger] context::group_row(first, options, group)
            == context::group_row(second, options, group) by {
        figures_ignore_arrival(first, second, options, group, reason);
    }
    assert forall|group: Seq<char>|
        context::group_paths(first, options).contains(group) == context::group_paths(
            second,
            options,
        ).contains(group) by {
        assert(context::group_row(first, options, group) == context::group_row(
            second,
            options,
            group,
        ));
    }
    assert(context::group_paths(first, options) =~= context::group_paths(second, options));
    assert(context::group_rows(first, options) =~= context::group_rows(second, options));
    let rows = context::left_out(first, options);
    let others = context::left_out(second, options);
    let lt = order::by_key::<ContextSkippedRow>();
    order::by_key_is_strict_weak::<ContextSkippedRow>();
    reveal_with_fuel(order::key_lt_from, 2);
    assert forall|i: int, j: int|
        0 <= i < rows.len() && 0 <= j < rows.len() && !lt(rows[i], rows[j]) && !lt(
            rows[j],
            rows[i],
        ) implies #[trigger] rows[i] == #[trigger] rows[j] by {
        let a = rows[i];
        let b = rows[j];
        assert(ContextSkippedRow::key(a)[0] == KeyPart::Text(a.path));
        assert(ContextSkippedRow::key(b)[0] == KeyPart::Text(b.path));
        text::text_lt_total(a.path, b.path);
        assert(lt(a, b) == text::text_lt(a.path, b.path));
        assert(lt(b, a) == text::text_lt(b.path, a.path));
        let k = row_has_a_file(first, options, i);
        let l = row_has_a_file(first, options, j);
        assert(seq![a][0] == a && seq![b][0] == b);
        assert(row_of(first[k], options)[0] == a);
        assert(row_of(first[l], options)[0] == b);
        assert(first[k].path == first[l].path);
        assert(k == l);
    }
    order::sorted_by_ignores_arrival(rows, others, lt);
    rows.to_multiset_ensures();
    others.to_multiset_ensures();
    assert(rows.len() == others.len());
}

} // verus!
