//! Reading the history: which commits there are, which have to be read, and by whom.

use vstd::prelude::*;

use crate::git::stream;
use crate::git::{GitFileChange, GitFileChangeView, GitHistoryError};
use crate::numbers;
use crate::order;
use crate::text;

verus! {

/// How many workers share `n` commits where `asked` were asked for: at most one per
/// commit, and at least one.
pub open spec fn worker_total(n: nat, asked: nat) -> nat {
    if n == 0 || asked == 0 {
        1
    } else if asked < n {
        asked
    } else {
        n
    }
}

/// Where the commits of worker `i` of `workers` start among `n`: each gets as many as
/// the others, and the first ones take what is left over, one each.
pub open spec fn chunk_start(n: nat, workers: nat, i: int) -> int {
    i * (n / workers) as int + if i < n % workers {
        i
    } else {
        (n % workers) as int
    }
}

proof fn chunk_starts(n: nat, workers: nat, i: int)
    requires
        workers > 0,
        0 <= i < workers,
    ensures
        chunk_start(n, workers, 0) == 0,
        chunk_start(n, workers, workers as int) == n,
        0 <= chunk_start(n, workers, i) <= chunk_start(n, workers, i + 1) <= n,
        chunk_start(n, workers, i + 1) - chunk_start(n, workers, i) == n / workers + if i < n
            % workers {
            1int
        } else {
            0int
        },
{
    let base = (n / workers) as int;
    let extra = (n % workers) as int;
    vstd::arithmetic::div_mod::lemma_fundamental_div_mod(n as int, workers as int);
    vstd::arithmetic::div_mod::lemma_mod_bound(n as int, workers as int);
    assert(base >= 0) by (nonlinear_arith)
        requires
            workers > 0,
            base == n / workers,
    ;
    assert((i + 1) * base == i * base + base) by (nonlinear_arith);
    assert(0 * base == 0);
    assert(0 <= i * base) by (nonlinear_arith)
        requires
            0 <= i,
            0 <= base,
    ;
    assert((i + 1) * base <= workers * base) by (nonlinear_arith)
        requires
            i + 1 <= workers,
            0 <= base,
    ;
    assert(workers * base + extra == n);
}

/// The parts of `ids` that the workers get.
pub open spec fn chunks(ids: Seq<Seq<char>>, asked: nat) -> Seq<Seq<Seq<char>>> {
    let workers = worker_total(ids.len(), asked);
    Seq::new(
        workers,
        |i: int|
            ids.subrange(
                chunk_start(ids.len(), workers, i),
                chunk_start(ids.len(), workers, i + 1),
            ),
    )
}

/// The worker parts, one behind the other, are all the commits in their order.
pub proof fn chunks_are_contiguous(ids: Seq<Seq<char>>, asked: nat)
    ensures
        chunks(ids, asked).flatten() == ids,
{
    let workers = worker_total(ids.len(), asked);
    chunks_up_to(ids, asked, workers as int);
    chunk_starts(ids.len(), workers, 0);
    let parts = chunks(ids, asked);
    assert(parts.take(workers as int) =~= parts);
    assert(ids.take(ids.len() as int) =~= ids);
}

proof fn chunks_up_to(ids: Seq<Seq<char>>, asked: nat, k: int)
    requires
        0 <= k <= worker_total(ids.len(), asked),
    ensures
        chunks(ids, asked).take(k).flatten() == ids.take(
            chunk_start(ids.len(), worker_total(ids.len(), asked), k),
        ),
    decreases k,
{
    let workers = worker_total(ids.len(), asked);
    let parts = chunks(ids, asked);
    if k == 0 {
        chunk_starts(ids.len(), workers, 0);
        assert(parts.take(0).flatten() =~= Seq::<Seq<char>>::empty());
        assert(ids.take(0) =~= Seq::<Seq<char>>::empty());
    } else {
        chunks_up_to(ids, asked, k - 1);
        chunk_starts(ids.len(), workers, k - 1);
        let start = chunk_start(ids.len(), workers, k - 1);
        let end = chunk_start(ids.len(), workers, k);
        assert(parts.take(k) =~= parts.take(k - 1).push(parts[k - 1]));
        parts.take(k - 1).lemma_flatten_push(parts[k - 1]);
        assert(ids.take(end) =~= ids.take(start) + ids.subrange(start, end));
    }
}

/// No worker gets more than one commit more than another.
pub proof fn chunks_are_balanced(ids: Seq<Seq<char>>, asked: nat, i: int, j: int)
    requires
        0 <= i < chunks(ids, asked).len(),
        0 <= j < chunks(ids, asked).len(),
    ensures
        chunks(ids, asked)[i].len() <= chunks(ids, asked)[j].len() + 1,
{
    let workers = worker_total(ids.len(), asked);
    chunk_starts(ids.len(), workers, i);
    chunk_starts(ids.len(), workers, j);
}

/// Splits the commits into one part for each worker.
pub fn split_commit_ids_for_workers(commit_ids: &[String], worker_count: usize) -> (out: Vec<
    Vec<String>,
>)
    ensures
        out.deep_view() == chunks(commit_ids.deep_view(), worker_count as nat),
{
    let ghost ids = commit_ids.deep_view();
    let n: usize = commit_ids.len();
    let mut workers: usize = if worker_count < n {
        worker_count
    } else {
        n
    };
    if workers == 0 {
        workers = 1;
    }
    assert(workers == worker_total(ids.len(), worker_count as nat));
    let base: usize = n / workers;
    let extra: usize = n % workers;
    let mut out: Vec<Vec<String>> = Vec::new();
    let mut start: usize = 0;
    let mut i: usize = 0;
    proof {
        chunk_starts(n as nat, workers as nat, 0);
    }
    while i < workers
        invariant
            i <= workers,
            0 < workers,
            n == commit_ids.len(),
            ids == commit_ids.deep_view(),
            base == n / workers,
            extra == n % workers,
            workers == worker_total(ids.len(), worker_count as nat),
            start == chunk_start(n as nat, workers as nat, i as int),
            out.deep_view() == chunks(ids, worker_count as nat).take(i as int),
        decreases workers - i,
    {
        proof {
            chunk_starts(n as nat, workers as nat, i as int);
        }
        let mut end: usize = start + base;
        if i < extra {
            end = end + 1;
        }
        let mut part: Vec<String> = Vec::new();
        let mut k: usize = start;
        while k < end
            invariant
                start <= k <= end <= n,
                n == commit_ids.len(),
                ids == commit_ids.deep_view(),
                part.deep_view() == ids.subrange(start as int, k as int),
            decreases end - k,
        {
            let ghost before = part.deep_view();
            part.push(commit_ids[k].clone());
            assert(part.deep_view() =~= before.push(ids[k as int]));
            k = k + 1;
            assert(part.deep_view() =~= ids.subrange(start as int, k as int));
        }
        let ghost before = out.deep_view();
        let ghost value = part.deep_view();
        out.push(part);
        proof {
            let parts = chunks(ids, worker_count as nat);
            assert(out.deep_view() =~= before.push(value));
            assert(parts.take(i + 1) =~= parts.take(i as int).push(parts[i as int]));
        }
        start = end;
        i = i + 1;
    }
    proof {
        let parts = chunks(ids, worker_count as nat);
        assert(parts.take(i as int) =~= parts);
    }
    out
}

/// Deterministic raw file change events: the events of all commits reachable from
/// `HEAD`, however they arrive, in order of time, commit, path, kind and line counts.
pub fn file_changes_from_head(changes: Vec<GitFileChange>) -> (out: Vec<GitFileChange>)
    ensures
        out.deep_view() == order::sorted_by(
            changes.deep_view(),
            order::by_key::<GitFileChange>(),
        ),
{
    order::sort(changes)
}

/// Whether events with the same time, commit, path, kind and line counts are equal, as
/// they are where each commit has one author and one list of parents.
pub open spec fn events_are_coherent(changes: Seq<GitFileChangeView>) -> bool {
    order::ties_are_equal(changes, order::by_key::<GitFileChange>())
}

/// In whatever order the workers deliver the events of their commits, the same
/// history comes out.
pub proof fn history_ignores_arrival(a: Seq<GitFileChangeView>, b: Seq<GitFileChangeView>)
    requires
        a.to_multiset() == b.to_multiset(),
        events_are_coherent(a),
    ensures
        order::sorted_by(a, order::by_key::<GitFileChange>()) == order::sorted_by(
            b,
            order::by_key::<GitFileChange>(),
        ),
{
    order::by_key_is_strict_weak::<GitFileChange>();
    order::sorted_by_ignores_arrival(a, b, order::by_key::<GitFileChange>());
}

/// Whether a trimmed line holds anything.
pub open spec fn holds_text() -> spec_fn(Seq<char>) -> bool {
    |line: Seq<char>| line.len() > 0
}

/// The commit ids in a listing: its lines, trimmed, without the empty ones.
pub open spec fn listed_commits(listing: Seq<char>) -> Seq<Seq<char>> {
    text::lines(listing).map_values(|line: Seq<char>| text::trimmed(line)).filter(holds_text())
}

/// Reads a listing of commits.
pub fn commit_ids_in(listing: &[u8]) -> (r: Result<Vec<String>, GitHistoryError>)
    ensures
        match r {
            Ok(ids) => vstd::utf8::valid_utf8(listing@) && ids.deep_view() == listed_commits(
                vstd::utf8::decode_utf8(listing@),
            ),
            Err(e) => !vstd::utf8::valid_utf8(listing@) && e.deep_view() == stream::malformed(
                "listing reachable commits"@,
                "rev-list output is not UTF-8: "@ + text::utf8_fault(listing@),
            ),
        },
{
    let listing = match text::decode(listing) {
        Ok(listing) => listing,
        Err(fault) => {
            let mut detail = "rev-list output is not UTF-8: ".to_owned();
            detail.append(fault.as_str());
            return Err(stream::malformed_stream("listing reachable commits", detail.as_str()));
        },
    };
    let lines = text::lines_of(listing.as_str());
    let ghost trimmed = text::lines(listing@).map_values(
        |line: Seq<char>| text::trimmed(line),
    );
    let mut out: Vec<String> = Vec::new();
    let mut i: usize = 0;
    proof {
        reveal(Seq::filter);
        assert(out.deep_view() =~= trimmed.take(0).filter(holds_text()));
    }
    while i < lines.len()
        invariant
            i <= lines.len(),
            lines.deep_view() == text::lines(listing@),
            trimmed == text::lines(listing@).map_values(
                |line: Seq<char>| text::trimmed(line),
            ),
            out.deep_view() == trimmed.take(i as int).filter(holds_text()),
        decreases lines.len() - i,
    {
        let line = text::trim(lines[i].as_str());
        let ghost before = out.deep_view();
        let ghost value = line@;
        proof {
            reveal(Seq::filter);
            assert(lines.deep_view()[i as int] == lines@[i as int]@);
            assert(trimmed.take(i + 1).drop_last() =~= trimmed.take(i as int));
            assert(trimmed.take(i + 1).last() == value);
        }
        if !line.as_str().is_empty() {
            out.push(line);
            assert(out.deep_view() =~= before.push(value));
        }
        i = i + 1;
    }
    assert(trimmed.take(i as int) =~= trimmed);
    Ok(out)
}

/// What Git printed as an error, on one line: its first five lines.
pub open spec fn stderr_words(stderr: Seq<char>) -> Seq<char> {
    let lines = text::lines(text::trimmed(stderr));
    if text::trimmed(stderr).len() == 0 {
        "no stderr output"@
    } else if lines.len() > 5 {
        text::joined(lines.take(5), " "@)
    } else {
        text::joined(lines, " "@)
    }
}

/// What Git printed as an error, on one line.
pub fn summarize_stderr(stderr: &str) -> (out: String)
    ensures
        out@ == stderr_words(stderr@),
{
    let trimmed = text::trim(stderr);
    if trimmed.as_str().is_empty() {
        return "no stderr output".to_owned();
    }
    let lines = text::lines_of(trimmed.as_str());
    if lines.len() > 5 {
        let first = vstd::slice::slice_subrange(lines.as_slice(), 0, 5);
        assert(first.deep_view() =~= lines.deep_view().take(5));
        text::join(first, " ")
    } else {
        text::join(lines.as_slice(), " ")
    }
}

/// What Git printed as an error, on one line; bytes that are no text are replaced.
pub fn sanitize_git_stderr(stderr: &[u8]) -> (out: String)
    ensures
        out@ == stderr_words(text::utf8_lossy(stderr@)),
{
    let stderr = text::decode_lossy(stderr);
    summarize_stderr(stderr.as_str())
}

/// Whether a setting asks for performance output.
pub open spec fn asks_for_perf(value: Seq<char>) -> bool {
    let word = text::lowered(text::trimmed(value));
    word == "1"@ || word == "true"@ || word == "yes"@ || word == "on"@
}

/// Whether a setting asks for performance output.
pub fn git_perf_enabled(value: &str) -> (r: bool)
    ensures
        r == asks_for_perf(value@),
{
    let trimmed = text::trim(value);
    let word = text::to_lower(trimmed.as_str());
    text::same(word.as_str(), "1") || text::same(word.as_str(), "true") || text::same(
        word.as_str(),
        "yes",
    ) || text::same(word.as_str(), "on")
}

/// The number of workers: the one in the setting where it is a positive number, else
/// what the machine offers.
pub open spec fn worker_setting(value: Option<Seq<char>>, available: nat) -> nat {
    match value {
        None => available,
        Some(value) => match numbers::unsigned_value(text::trimmed(value), usize::MAX as nat) {
            Ok(n) => if n > 0 {
                n
            } else {
                available
            },
            Err(_) => available,
        },
    }
}

/// The number of workers: the one in the setting where it is a positive number, else
/// what the machine offers.
pub fn git_stream_worker_count(value: Option<&str>, available: usize) -> (n: usize)
    ensures
        n == worker_setting(value.deep_view(), available as nat),
{
    match value {
        None => available,
        Some(value) => {
            let trimmed = text::trim(value);
            match numbers::parse_unsigned(trimmed.as_str(), usize::MAX as u64) {
                Ok(n) => if n > 0 {
                    n as usize
                } else {
                    available
                },
                Err(_) => available,
            }
        },
    }
}

} // verus!
