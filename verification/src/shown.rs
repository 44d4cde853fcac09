//! What texts show of what they are made from.

use vstd::prelude::*;

use crate::complexity;
use crate::complexity::{ComplexityReportView, RankedSymbolView};
use crate::context;
use crate::context::{ContextGroupRowView, ContextReportView};
use crate::dependency::ResolvedDependencyEdgeView;
use crate::diff::risk;
use crate::diff::risk::{DiffRiskReportView, TouchedHotspotView};
use crate::diff::{DiffChangeKind, DiffChangedFileView};
use crate::git::explain;
use crate::git::explain::RelatedCoChangeView;
use crate::git::{GitChangeKind, GitFileChangeView, GitFileMetricsView};
use crate::graph;
use crate::graph::GraphReportView;
use crate::hotspots;
use crate::hotspots::{HotspotRowView, HotspotsReportView};
use crate::numbers;
use crate::scoring;
use crate::scoring::{HotspotsOptions, RankedHotspotScoreView};
use crate::text;

verus! {

/// Whether a text shows a part.
pub open spec fn shows(s: Seq<char>, part: Seq<char>) -> bool {
    exists|before: Seq<char>, after: Seq<char>| s == #[trigger] (before + part + after)
}

/// What a text shows, it shows with more behind it.
pub proof fn more_text_shows_as_much(s: Seq<char>, part: Seq<char>, more: Seq<char>)
    requires
        shows(s, part),
    ensures
        shows(s + more, part),
{
    let (before, after) = choose|before: Seq<char>, after: Seq<char>| s == #[trigger] (before + part
        + after);
    assert(s + more =~= before + part + (after + more));
}

/// A text shows what it is put together from.
pub proof fn texts_show_their_parts(before: Seq<char>, part: Seq<char>, after: Seq<char>)
    ensures
        shows(before + part + after, part),
{
}

/// A number in digits.
pub open spec fn digits(n: u64) -> Seq<char> {
    numbers::decimal(n as nat)
}

/// The line of a hotspot in a table.
pub open spec fn hotspot_line(row: HotspotRowView, verbose: bool) -> Seq<char> {
    if verbose {
        text::aligned(digits(row.rank), 2) + "  "@ + row.score.text + "  "@ + row.relative_path
            + "  ["@ + row.confidence + "]"@
    } else {
        text::aligned(digits(row.rank), 2) + "  "@ + row.relative_path
    }
}

proof fn indented_lines_go_on(out: Seq<char>, texts: Seq<Seq<char>>, part: Seq<char>)
    requires
        shows(out, part),
    ensures
        shows(hotspots::indented_lines(out, texts), part),
    decreases texts.len(),
{
    if texts.len() > 0 {
        let front = hotspots::indented_lines(out, texts.drop_last());
        indented_lines_go_on(out, texts.drop_last(), part);
        more_text_shows_as_much(front, part, "\n    "@);
        more_text_shows_as_much(front + "\n    "@, part, texts.last());
    }
}

proof fn indented_lines_show_theirs(out: Seq<char>, texts: Seq<Seq<char>>, k: int)
    requires
        0 <= k < texts.len(),
    ensures
        shows(hotspots::indented_lines(out, texts), texts[k]),
    decreases texts.len(),
{
    let front = hotspots::indented_lines(out, texts.drop_last());
    if k < texts.len() - 1 {
        assert(texts.drop_last()[k] == texts[k]);
        indented_lines_show_theirs(out, texts.drop_last(), k);
        more_text_shows_as_much(front, texts[k], "\n    "@);
        more_text_shows_as_much(front + "\n    "@, texts[k], texts.last());
    } else {
        let none = Seq::<char>::empty();
        texts_show_their_parts(front + "\n    "@, texts[k], none);
        assert(front + "\n    "@ + texts[k] + none =~= hotspots::indented_lines(out, texts));
    }
}

#[verifier::rlimit(60)]
proof fn row_goes_on(out: Seq<char>, row: HotspotRowView, verbose: bool, part: Seq<char>)
    requires
        shows(out, part),
    ensures
        shows(hotspots::row_text(out, row, verbose), part),
{
    let none = Seq::<char>::empty();
    let start = out + "\n"@ + "\n"@ + text::aligned(numbers::decimal(row.rank as nat), 2) + "  "@;
    let named = if verbose {
        start + row.score.text + "  "@ + row.relative_path + "  ["@ + row.confidence + "]"@
    } else {
        start + row.relative_path
    };
    let tagged = if row.tags.len() == 0 {
        named
    } else {
        named + "\n    "@ + text::joined(row.tags, " · "@)
    };
    let line = hotspot_line(row, verbose);
    let break_line = "\n"@ + "\n"@;
    more_text_shows_as_much(out, part, break_line + line);
    assert(out + (break_line + line) =~= named);
    let tags = "\n    "@ + text::joined(row.tags, " · "@);
    more_text_shows_as_much(named, part, tags);
    assert(named + tags =~= named + "\n    "@ + text::joined(row.tags, " · "@));
    indented_lines_go_on(tagged, row.drivers, part);
}

#[verifier::rlimit(60)]
proof fn row_shows_itself(out: Seq<char>, row: HotspotRowView, verbose: bool)
    ensures
        shows(hotspots::row_text(out, row, verbose), hotspot_line(row, verbose)),
        row.tags.len() > 0 ==> shows(
            hotspots::row_text(out, row, verbose),
            text::joined(row.tags, " · "@),
        ),
        verbose ==> forall|k: int|
            0 <= k < row.drivers.len() ==> shows(
                hotspots::row_text(out, row, verbose),
                #[trigger] row.drivers[k],
            ),
{
    let none = Seq::<char>::empty();
    let start = out + "\n"@ + "\n"@ + text::aligned(numbers::decimal(row.rank as nat), 2) + "  "@;
    let named = if verbose {
        start + row.score.text + "  "@ + row.relative_path + "  ["@ + row.confidence + "]"@
    } else {
        start + row.relative_path
    };
    let joined = text::joined(row.tags, " · "@);
    let tagged = if row.tags.len() == 0 {
        named
    } else {
        named + "\n    "@ + joined
    };
    let line = hotspot_line(row, verbose);
    texts_show_their_parts(out + ("\n"@ + "\n"@), line, none);
    assert(out + ("\n"@ + "\n"@) + line + none =~= named);
    more_text_shows_as_much(named, line, "\n    "@ + joined);
    assert(named + ("\n    "@ + joined) =~= named + "\n    "@ + joined);
    texts_show_their_parts(named + "\n    "@, joined, none);
    assert(named + "\n    "@ + joined + none =~= named + "\n    "@ + joined);
    indented_lines_go_on(tagged, row.drivers, line);
    if row.tags.len() > 0 {
        indented_lines_go_on(tagged, row.drivers, joined);
    }
    if verbose {
        assert forall|k: int| 0 <= k < row.drivers.len() implies shows(
            hotspots::row_text(out, row, verbose),
            #[trigger] row.drivers[k],
        ) by {
            indented_lines_show_theirs(tagged, row.drivers, k);
        }
    }
}

proof fn rows_show_each(out: Seq<char>, rows: Seq<HotspotRowView>, verbose: bool, i: int)
    requires
        0 <= i < rows.len(),
    ensures
        shows(hotspots::rows_text(out, rows, verbose), hotspot_line(rows[i], verbose)),
        rows[i].tags.len() > 0 ==> shows(
            hotspots::rows_text(out, rows, verbose),
            text::joined(rows[i].tags, " · "@),
        ),
    decreases rows.len(),
{
    let front = rows.drop_last();
    let before = hotspots::rows_text(out, front, verbose);
    if i < rows.len() - 1 {
        assert(front[i] == rows[i]);
        rows_show_each(out, front, verbose, i);
        row_goes_on(before, rows.last(), verbose, hotspot_line(rows[i], verbose));
        if rows[i].tags.len() > 0 {
            row_goes_on(before, rows.last(), verbose, text::joined(rows[i].tags, " · "@));
        }
    } else {
        row_shows_itself(before, rows[i], verbose);
    }
}

/// The table of hotspots shows each of them: its rank and path, in full also its score and how far
/// it is to be trusted; and its tags.
pub proof fn tables_show_every_hotspot(report: HotspotsReportView, verbose: bool, i: int)
    requires
        0 <= i < report.rows.len(),
    ensures
        shows(hotspots::table_text(report, verbose), hotspot_line(report.rows[i], verbose)),
        report.rows[i].tags.len() > 0 ==> shows(
            hotspots::table_text(report, verbose),
            text::joined(report.rows[i].tags, " · "@),
        ),
{
    let title = hotspots::title(report.include_tests);
    if verbose {
        rows_show_each(title, report.rows, true, i);
    } else {
        rows_show_each(
            title + "  [git confidence: "@ + report.rows[0].confidence + "]"@,
            report.rows,
            false,
            i,
        );
    }
}

proof fn drivers_show(out: Seq<char>, rows: Seq<HotspotRowView>, i: int, k: int)
    requires
        0 <= i < rows.len(),
        0 <= k < rows[i].drivers.len(),
    ensures
        shows(hotspots::rows_text(out, rows, true), rows[i].drivers[k]),
    decreases rows.len(),
{
    let front = rows.drop_last();
    let before = hotspots::rows_text(out, front, true);
    if i < rows.len() - 1 {
        assert(front[i] == rows[i]);
        drivers_show(out, front, i, k);
        row_goes_on(before, rows.last(), true, rows[i].drivers[k]);
    } else {
        row_shows_itself(before, rows[i], true);
    }
}

/// The full table of hotspots shows what drives each of them.
pub proof fn full_tables_show_what_drives(report: HotspotsReportView, i: int, k: int)
    requires
        0 <= i < report.rows.len(),
        0 <= k < report.rows[i].drivers.len(),
    ensures
        shows(hotspots::table_text(report, true), report.rows[i].drivers[k]),
{
    drivers_show(hotspots::title(report.include_tests), report.rows, i, k);
}

/// A kind of change in words.
pub open spec fn is_kind_in_words(kind: DiffChangeKind, words: Seq<char>) -> bool {
    match kind {
        DiffChangeKind::Added => words == "added"@,
        DiffChangeKind::Copied => words == "copied"@,
        DiffChangeKind::Deleted => words == "deleted"@,
        DiffChangeKind::Modified => words == "modified"@,
        DiffChangeKind::Renamed => words == "renamed"@,
        DiffChangeKind::TypeChanged => words == "type_changed"@,
    }
}

/// The line of a changed file.
pub open spec fn changed_line(file: DiffChangedFileView, kind: Seq<char>) -> Seq<char> {
    kind + "  "@ + file.path + "  +"@ + digits(file.added_lines) + " -"@ + digits(
        file.deleted_lines,
    )
}

#[verifier::rlimit(60)]
proof fn changed_files_show(out: Seq<char>, items: Seq<DiffChangedFileView>, i: int, kind: Seq<char>)
    requires
        0 <= i < items.len(),
        is_kind_in_words(items[i].change_kind, kind),
    ensures
        shows(risk::file_lines(out, items), changed_line(items[i], kind)),
    decreases items.len(),
{
    let front = items.drop_last();
    let before = risk::file_lines(out, front);
    let item = items.last();
    let whole = risk::file_lines(out, items);
    let part = changed_line(items[i], kind);
    let tail = "  "@ + risk::with_sign(item.context_token_delta as int) + " tokens"@;
    let own = changed_line(item, risk::kind_words(item.change_kind));
    assert(whole =~= before + "\n  "@ + own + tail);
    if i < items.len() - 1 {
        assert(front[i] == items[i]);
        changed_files_show(out, front, i, kind);
        more_text_shows_as_much(before, part, "\n  "@);
        more_text_shows_as_much(before + "\n  "@, part, own);
        more_text_shows_as_much(before + "\n  "@ + own, part, tail);
    } else {
        texts_show_their_parts(before + "\n  "@, own, tail);
    }
}

/// The text on a diff shows every changed file, with what became of it and its lines.
pub proof fn risks_show_every_changed_file(report: DiffRiskReportView, i: int, kind: Seq<char>)
    requires
        0 <= i < report.changed_files.len(),
        is_kind_in_words(report.changed_files[i].change_kind, kind),
    ensures
        shows(risk::risk_text(report), changed_line(report.changed_files[i], kind)),
{
    let head = "Hotpath diff risk\nrange: "@ + report.range.requested + "\nChanged files: "@
        + numbers::decimal(report.summary.changed_file_count as nat) + "\nTouched hotspots: "@
        + numbers::decimal(report.summary.touched_hotspot_count as nat)
        + "\nArchitecture violations: "@ + risk::architecture_words(report.summary.architecture)
        + "\nContext growth: "@ + risk::with_sign(report.summary.context_token_delta as int)
        + " tokens\n\ntouched hotspots"@;
    let hotspots = if report.summary.touched_hotspots.len() == 0 {
        head + "\n  none"@
    } else {
        risk::hotspot_lines(head, report.summary.touched_hotspots)
    };
    changed_files_show(hotspots + "\n\nchanged files"@, report.changed_files, i, kind);
}

#[verifier::rlimit(60)]
proof fn changed_files_go_on(out: Seq<char>, items: Seq<DiffChangedFileView>, part: Seq<char>)
    requires
        shows(out, part),
    ensures
        shows(risk::file_lines(out, items), part),
    decreases items.len(),
{
    if items.len() > 0 {
        let before = risk::file_lines(out, items.drop_last());
        let item = items.last();
        changed_files_go_on(out, items.drop_last(), part);
        let line = "\n  "@ + risk::kind_words(item.change_kind) + "  "@ + item.path + "  +"@
            + numbers::decimal(item.added_lines as nat) + " -"@ + numbers::decimal(
            item.deleted_lines as nat,
        ) + "  "@ + risk::with_sign(item.context_token_delta as int) + " tokens"@;
        more_text_shows_as_much(before, part, line);
        assert(before + line =~= risk::file_lines(out, items));
    }
}

/// The line of a touched hotspot.
pub open spec fn touched_line(item: TouchedHotspotView) -> Seq<char> {
    "#"@ + digits(item.rank) + "  "@ + item.score.text + "  "@ + item.path
}

#[verifier::rlimit(60)]
proof fn touched_hotspots_show(out: Seq<char>, items: Seq<TouchedHotspotView>, i: int)
    requires
        0 <= i < items.len(),
    ensures
        shows(risk::hotspot_lines(out, items), touched_line(items[i])),
    decreases items.len(),
{
    reveal_strlit("\n  #");
    reveal_strlit("\n  ");
    reveal_strlit("#");
    let front = items.drop_last();
    let before = risk::hotspot_lines(out, front);
    let item = items.last();
    let none = Seq::<char>::empty();
    let own = touched_line(item);
    assert("\n  "@ + "#"@ =~= "\n  #"@);
    assert(before + "\n  "@ + own + none =~= risk::hotspot_lines(out, items));
    if i < items.len() - 1 {
        assert(front[i] == items[i]);
        touched_hotspots_show(out, front, i);
        let part = touched_line(items[i]);
        more_text_shows_as_much(before, part, "\n  "@);
        more_text_shows_as_much(before + "\n  "@, part, own);
        more_text_shows_as_much(before + "\n  "@ + own, part, none);
    } else {
        texts_show_their_parts(before + "\n  "@, own, none);
    }
}

/// The text on a diff shows every touched hotspot, with its rank and its score.
pub proof fn risks_show_every_touched_hotspot(report: DiffRiskReportView, i: int)
    requires
        0 <= i < report.summary.touched_hotspots.len(),
    ensures
        shows(risk::risk_text(report), touched_line(report.summary.touched_hotspots[i])),
{
    let head = "Hotpath diff risk\nrange: "@ + report.range.requested + "\nChanged files: "@
        + numbers::decimal(report.summary.changed_file_count as nat) + "\nTouched hotspots: "@
        + numbers::decimal(report.summary.touched_hotspot_count as nat)
        + "\nArchitecture violations: "@ + risk::architecture_words(report.summary.architecture)
        + "\nContext growth: "@ + risk::with_sign(report.summary.context_token_delta as int)
        + " tokens\n\ntouched hotspots"@;
    let part = touched_line(report.summary.touched_hotspots[i]);
    touched_hotspots_show(head, report.summary.touched_hotspots, i);
    let hotspots = risk::hotspot_lines(head, report.summary.touched_hotspots);
    more_text_shows_as_much(hotspots, part, "\n\nchanged files"@);
    let titled = hotspots + "\n\nchanged files"@;
    if report.changed_files.len() == 0 {
        more_text_shows_as_much(titled, part, "\n  none"@);
    } else {
        changed_files_go_on(titled, report.changed_files, part);
    }
}

/// The line of a group.
pub open spec fn group_line(group: ContextGroupRowView) -> Seq<char> {
    group.path + "  "@ + digits(group.estimated_tokens) + "  "@ + digits(group.byte_size) + "  "@
        + digits(group.file_count)
}

#[verifier::rlimit(60)]
proof fn groups_show(out: Seq<char>, groups: Seq<ContextGroupRowView>, i: int)
    requires
        0 <= i < groups.len(),
    ensures
        shows(context::group_lines(out, groups), group_line(groups[i])),
    decreases groups.len(),
{
    let front = groups.drop_last();
    let before = context::group_lines(out, front);
    let none = Seq::<char>::empty();
    let own = group_line(groups.last());
    assert(before + "\n  "@ + own + none =~= context::group_lines(out, groups));
    if i < groups.len() - 1 {
        assert(front[i] == groups[i]);
        groups_show(out, front, i);
        let part = group_line(groups[i]);
        more_text_shows_as_much(before, part, "\n  "@);
        more_text_shows_as_much(before + "\n  "@, part, own);
        more_text_shows_as_much(before + "\n  "@ + own, part, none);
    } else {
        texts_show_their_parts(before + "\n  "@, own, none);
    }
}

/// The text on a context estimate shows every group, with its tokens, bytes and files.
pub proof fn estimates_show_every_group(report: ContextReportView, i: int)
    requires
        0 <= i < report.groups.len(),
    ensures
        shows(context::context_text(report), group_line(report.groups[i])),
{
    let head = "Hotpath context budget\nscope: current scanned UTF-8 text files from the working directory\nformula: estimated tokens = ceil(byte_size / 4) for UTF-8 text files\n\ntotal estimated tokens  "@
        + numbers::decimal(report.summary.estimated_tokens as nat) + "\nincluded files          "@
        + numbers::decimal(report.summary.included_files as nat) + "\nskipped files           "@
        + numbers::decimal(report.summary.skipped_files as nat) + "\nincluded bytes          "@
        + numbers::decimal(report.summary.included_bytes as nat);
    let filtered = if report.options.exclude_generated || report.options.exclude_vendor {
        head + "\noutput filters: "@ + context::filter_words(report.options)
    } else {
        head
    };
    let budgeted = match report.budget {
        Some(budget) => filtered + "\nbudget: "@ + context::budget_words(budget),
        None => filtered,
    };
    let titled = budgeted + "\n\ngroups\n  group path  estimated tokens  bytes  files"@;
    groups_show(titled, report.groups, i);
    let listed = context::group_lines(titled, report.groups);
    more_text_shows_as_much(
        listed,
        group_line(report.groups[i]),
        "\n\ncalculation notes\n  - Offline deterministic approximation; no source text leaves the local machine.\n  - Tokenizer-specific counts vary by model and language, so treat this as planning guidance."@,
    );
}

/// The line of a score.
pub open spec fn score_line(ranked: RankedHotspotScoreView) -> Seq<char> {
    text::aligned(digits(ranked.rank), 4) + "  "@ + ranked.score.value.text + "  "@
        + ranked.score.path
}

#[verifier::rlimit(60)]
proof fn scores_show(out: Seq<char>, rows: Seq<RankedHotspotScoreView>, i: int)
    requires
        0 <= i < rows.len(),
    ensures
        shows(scoring::rows_text(out, rows), score_line(rows[i])),
    decreases rows.len(),
{
    let front = rows.drop_last();
    let before = scoring::rows_text(out, front);
    let last = rows.last();
    let own = score_line(last);
    let tail = "\n      key contributors: "@ + scoring::contributor_words(last.score)
        + "\n      why: "@ + scoring::raw_words(last.score.raw_metrics) + "\n      limitations: "@
        + scoring::limitation_words(last.score);
    assert(before + "\n"@ + own + tail =~= scoring::rows_text(out, rows));
    if i < rows.len() - 1 {
        assert(front[i] == rows[i]);
        scores_show(out, front, i);
        let part = score_line(rows[i]);
        more_text_shows_as_much(before, part, "\n"@);
        more_text_shows_as_much(before + "\n"@, part, own);
        more_text_shows_as_much(before + "\n"@ + own, part, tail);
    } else {
        texts_show_their_parts(before + "\n"@, own, tail);
    }
}

/// The list of scores shows every one that is displayed, with its rank, score and path.
pub proof fn lists_show_every_score(
    formula_id: Seq<char>,
    ranked: Seq<RankedHotspotScoreView>,
    displayed: Seq<RankedHotspotScoreView>,
    options: HotspotsOptions,
    recent_window_days: i64,
    i: int,
)
    requires
        0 <= i < displayed.len(),
    ensures
        shows(
            scoring::hotspots_text(formula_id, ranked, displayed, options, recent_window_days),
            score_line(displayed[i]),
        ),
{
    let head = "Hotpath hotspots\nscope: current scanned files plus local Git history reachable from HEAD\nformula: "@
        + formula_id + "\nfiles ranked: "@ + numbers::decimal(ranked.len()) + " (showing "@
        + numbers::decimal(displayed.len()) + ")"@;
    let filtered = if scoring::is_filtered(options) {
        head + "\noutput filters: "@ + text::joined(scoring::filter_list(options), ", "@)
    } else {
        head
    };
    let titled = filtered + "\n\nrank  score  path"@;
    let rows = scoring::rows_text(titled, displayed);
    let part = score_line(displayed[i]);
    scores_show(titled, displayed, i);
    let start = "\n\ncalculation notes\n  - Scores are advisory signals for investigation, not proof that a file is defective.\n  - Inputs come from scanner facts and local Git history reachable from HEAD only.\n  - Recent churn uses the "@;
    let end = "-day window before the HEAD committer timestamp.\n  - Missing normalized inputs contribute 0.0; formula weights are not redistributed."@;
    let days = numbers::signed_decimal(recent_window_days as int);
    more_text_shows_as_much(rows, part, start);
    more_text_shows_as_much(rows + start, part, days);
    more_text_shows_as_much(rows + start + days, part, end);
    let noted = scoring::notes_text(rows, recent_window_days);
    assert(noted == rows + start + days + end);
    more_text_shows_as_much(
        noted,
        part,
        "\n  - Output filters affect displayed rows only; persisted hotspot scores keep the full ranked set and original ranks."@,
    );
}

/// A kind of change in words.
pub open spec fn is_change_in_words(kind: GitChangeKind, words: Seq<char>) -> bool {
    match kind {
        GitChangeKind::Added => words == "added"@,
        GitChangeKind::Copied => words == "copied"@,
        GitChangeKind::Deleted => words == "deleted"@,
        GitChangeKind::Modified => words == "modified"@,
        GitChangeKind::Renamed => words == "renamed"@,
        GitChangeKind::TypeChanged => words == "type_changed"@,
    }
}

/// The line of an event, behind its commit.
pub open spec fn event_line(change: GitFileChangeView, kind: Seq<char>) -> Seq<char> {
    kind + "  +"@ + digits(change.added_lines) + " -"@ + digits(change.deleted_lines) + "  "@
        + change.author + "  commit_time "@ + numbers::signed_decimal(change.commit_time as int)
}

#[verifier::rlimit(60)]
proof fn events_show(out: Seq<char>, changes: Seq<GitFileChangeView>, i: int, kind: Seq<char>)
    requires
        0 <= i < changes.len(),
        is_change_in_words(changes[i].change_kind, kind),
    ensures
        shows(explain::change_lines(out, changes), event_line(changes[i], kind)),
    decreases changes.len(),
{
    let front = changes.drop_last();
    let before = explain::change_lines(out, front);
    let last = changes.last();
    let none = Seq::<char>::empty();
    let own = event_line(last, explain::kind_name(last.change_kind));
    let start = "\n  "@ + explain::short_id(last.commit_id) + "  "@;
    assert(before + start + own + none =~= explain::change_lines(out, changes));
    if i < changes.len() - 1 {
        assert(front[i] == changes[i]);
        events_show(out, front, i, kind);
        let part = event_line(changes[i], kind);
        more_text_shows_as_much(before, part, start);
        more_text_shows_as_much(before + start, part, own);
        more_text_shows_as_much(before + start + own, part, none);
    } else {
        texts_show_their_parts(before + start, own, none);
    }
}

/// The line of a file that changed together with another.
pub open spec fn partner_line(partner: RelatedCoChangeView) -> Seq<char> {
    digits(partner.commit_count) + "  "@ + partner.path
}

#[verifier::rlimit(60)]
proof fn partners_show(out: Seq<char>, related: Seq<RelatedCoChangeView>, i: int)
    requires
        0 <= i < related.len(),
    ensures
        shows(explain::related_lines(out, related), partner_line(related[i])),
    decreases related.len(),
{
    let front = related.drop_last();
    let before = explain::related_lines(out, front);
    let none = Seq::<char>::empty();
    let own = partner_line(related.last());
    assert(before + "\n  "@ + own + none =~= explain::related_lines(out, related));
    if i < related.len() - 1 {
        assert(front[i] == related[i]);
        partners_show(out, front, i);
        let part = partner_line(related[i]);
        more_text_shows_as_much(before, part, "\n  "@);
        more_text_shows_as_much(before + "\n  "@, part, own);
        more_text_shows_as_much(before + "\n  "@ + own, part, none);
    } else {
        texts_show_their_parts(before + "\n  "@, own, none);
    }
}

#[verifier::rlimit(60)]
proof fn partners_go_on(out: Seq<char>, related: Seq<RelatedCoChangeView>, part: Seq<char>)
    requires
        shows(out, part),
    ensures
        shows(explain::related_lines(out, related), part),
    decreases related.len(),
{
    if related.len() > 0 {
        let before = explain::related_lines(out, related.drop_last());
        let line = "\n  "@ + partner_line(related.last());
        partners_go_on(out, related.drop_last(), part);
        more_text_shows_as_much(before, part, line);
        assert(before + line =~= explain::related_lines(out, related));
    }
}

/// The churn of a file in words.
pub open spec fn churn_words(metric: GitFileMetricsView) -> Seq<char> {
    "\n  commits per file: "@ + digits(metric.commits_per_file) + "\n  total churn: "@ + digits(
        metric.total_churn_added,
    ) + " added, "@ + digits(metric.total_churn_deleted) + " deleted, "@ + numbers::decimal(
        (metric.total_churn_added + metric.total_churn_deleted) as nat,
    ) + " combined\n  recent churn (90 days): "@ + digits(metric.recent_churn_added) + " added, "@
        + digits(metric.recent_churn_deleted) + " deleted, "@ + numbers::decimal(
        (metric.recent_churn_added + metric.recent_churn_deleted) as nat,
    ) + " combined\n  author count: "@ + digits(metric.author_count) + "\n  owner count: "@
        + digits(metric.owner_count)
}

proof fn pieces_group(a: Seq<char>, b: Seq<char>, c: Seq<char>)
    ensures
        a + (b + c) == a + b + c,
{
    assert(a + (b + c) =~= a + b + c);
}

/// A text with the churn of a file behind it.
spec fn with_churn(out: Seq<char>, metric: GitFileMetricsView) -> Seq<char> {
    out + "\n  commits per file: "@ + digits(metric.commits_per_file) + "\n  total churn: "@ + digits(metric.total_churn_added) + " added, "@ + digits(metric.total_churn_deleted) + " deleted, "@ + numbers::decimal((metric.total_churn_added + metric.total_churn_deleted) as nat) + " combined\n  recent churn (90 days): "@ + digits(metric.recent_churn_added) + " added, "@ + digits(metric.recent_churn_deleted) + " deleted, "@ + numbers::decimal((metric.recent_churn_added + metric.recent_churn_deleted) as nat) + " combined\n  author count: "@ + digits(metric.author_count) + "\n  owner count: "@ + digits(metric.owner_count)
}

proof fn churn_is_put_behind(out: Seq<char>, metric: GitFileMetricsView)
    ensures
        with_churn(out, metric) == out + churn_words(metric),
{
    let a = "\n  commits per file: "@;
    let b = a + digits(metric.commits_per_file);
    pieces_group(out, a, digits(metric.commits_per_file));
    let c = b + "\n  total churn: "@;
    pieces_group(out, b, "\n  total churn: "@);
    let d = c + digits(metric.total_churn_added);
    pieces_group(out, c, digits(metric.total_churn_added));
    let e = d + " added, "@;
    pieces_group(out, d, " added, "@);
    let f = e + digits(metric.total_churn_deleted);
    pieces_group(out, e, digits(metric.total_churn_deleted));
    let g = f + " deleted, "@;
    pieces_group(out, f, " deleted, "@);
    let h = g + numbers::decimal((metric.total_churn_added + metric.total_churn_deleted) as nat);
    pieces_group(out, g, numbers::decimal((metric.total_churn_added + metric.total_churn_deleted) as nat));
    let i = h + " combined\n  recent churn (90 days): "@;
    pieces_group(out, h, " combined\n  recent churn (90 days): "@);
    let j = i + digits(metric.recent_churn_added);
    pieces_group(out, i, digits(metric.recent_churn_added));
    let k = j + " added, "@;
    pieces_group(out, j, " added, "@);
    let l = k + digits(metric.recent_churn_deleted);
    pieces_group(out, k, digits(metric.recent_churn_deleted));
    let m = l + " deleted, "@;
    pieces_group(out, l, " deleted, "@);
    let n = m + numbers::decimal((metric.recent_churn_added + metric.recent_churn_deleted) as nat);
    pieces_group(out, m, numbers::decimal((metric.recent_churn_added + metric.recent_churn_deleted) as nat));
    let o = n + " combined\n  author count: "@;
    pieces_group(out, n, " combined\n  author count: "@);
    let p = o + digits(metric.author_count);
    pieces_group(out, o, digits(metric.author_count));
    let q = p + "\n  owner count: "@;
    pieces_group(out, p, "\n  owner count: "@);
    let r = q + digits(metric.owner_count);
    pieces_group(out, q, digits(metric.owner_count));
}

proof fn metrics_go_on(out: Seq<char>, metric: GitFileMetricsView, part: Seq<char>)
    requires
        shows(out, part) || part == churn_words(metric),
    ensures
        shows(explain::metric_lines(out, metric), part),
{
    let none = Seq::<char>::empty();
    let counts = with_churn(out, metric);
    churn_is_put_behind(out, metric);
    if part == churn_words(metric) {
        texts_show_their_parts(out, part, none);
        assert(out + part + none =~= counts);
    } else {
        more_text_shows_as_much(out, part, churn_words(metric));
    }
    let owned = match (metric.dominant_owner, metric.dominant_owner_share) {
        (Some(owner), Some(share)) => {
            let named = counts + "\n  dominant owner: "@ + owner;
            more_text_shows_as_much(counts, part, "\n  dominant owner: "@);
            more_text_shows_as_much(counts + "\n  dominant owner: "@, part, owner);
            more_text_shows_as_much(named, part, " ("@);
            more_text_shows_as_much(named + " ("@, part, share.text);
            more_text_shows_as_much(
                named + " ("@ + share.text,
                part,
                "% weighted operational ownership)"@,
            );
            named + " ("@ + share.text + "% weighted operational ownership)"@
        },
        _ => {
            more_text_shows_as_much(counts, part, "\n  dominant owner: unavailable"@);
            counts + "\n  dominant owner: unavailable"@
        },
    };
    let first = explain::observed(metric.first_commit_id, metric.first_commit_time);
    let last = explain::observed(metric.last_commit_id, metric.last_commit_time);
    let a = owned + "\n  first observed commit: "@;
    let b = a + first;
    let c = b + "\n  last observed commit: "@;
    let d = c + last;
    let e = d + "\n  file age: "@;
    more_text_shows_as_much(owned, part, "\n  first observed commit: "@);
    more_text_shows_as_much(a, part, first);
    more_text_shows_as_much(b, part, "\n  last observed commit: "@);
    more_text_shows_as_much(c, part, last);
    more_text_shows_as_much(d, part, "\n  file age: "@);
    more_text_shows_as_much(e, part, explain::age_words(metric.file_age_days));
    assert(explain::metric_lines(out, metric) == e + explain::age_words(metric.file_age_days));
}

/// What stands before the metrics, before the related files and behind them in an explanation.
#[verifier::rlimit(60)]
proof fn explanations_go_on(
    path: Seq<char>,
    head_commit_time: i64,
    metric: Option<GitFileMetricsView>,
    file_changes: Seq<GitFileChangeView>,
    related: Seq<RelatedCoChangeView>,
    part: Seq<char>,
) -> (texts: (Seq<char>, Seq<char>))
    ensures
        file_changes.len() > 0 ==> exists|raw: Seq<char>|
            texts.0 == #[trigger] explain::change_lines(raw, file_changes),
        metric matches Some(metric) ==> texts.1 == explain::metric_lines(
            texts.0 + "\n\nraw metrics"@,
            metric,
        ),
        shows(texts.0, part) ==> shows(
            explain::explanation(path, head_commit_time, metric, file_changes, related),
            part,
        ),
        shows(texts.1, part) ==> shows(
            explain::explanation(path, head_commit_time, metric, file_changes, related),
            part,
        ),
        related.len() > 0 && shows(
            explain::related_lines(texts.1 + "\n\nco-changes"@, related),
            part,
        ) ==> shows(
            explain::explanation(path, head_commit_time, metric, file_changes, related),
            part,
        ),
{
    let raw = "Hotpath Git explanation\npath: "@ + path
        + "\nhistory scope: local commits reachable from HEAD\nHEAD committer timestamp: "@
        + numbers::signed_decimal(head_commit_time as int) + " (Unix seconds)"@
        + "\n\nraw changes"@;
    let changes = if file_changes.len() == 0 {
        raw + "\n  none"@
    } else {
        explain::change_lines(raw, file_changes)
    };
    let nothing = "\n  commits per file: 0\n  total churn: 0 added, 0 deleted, 0 combined\n  recent churn (90 days): 0 added, 0 deleted, 0 combined\n  author count: 0\n  owner count: 0\n  dominant owner: unavailable\n  first observed commit: unavailable\n  last observed commit: unavailable\n  file age: unavailable"@;
    let metrics = match metric {
        Some(metric) => explain::metric_lines(changes + "\n\nraw metrics"@, metric),
        None => changes + "\n\nraw metrics"@ + nothing,
    };
    let pairs = if related.len() == 0 {
        metrics + "\n\nco-changes"@ + "\n  none"@
    } else {
        explain::related_lines(metrics + "\n\nco-changes"@, related)
    };
    let notes = "\n\ncalculation notes\n  - Uses local Git history reachable from HEAD only.\n  - Root commits are diffed against the empty tree; merge commits are diffed against their first parent.\n  - Recent churn uses the 90-day window before the HEAD committer timestamp.\n  - Operational ownership weights changed lines, recency, and sustained file activity.\n  - Co-change rows count commits that touched the requested path and the listed path."@;
    let limits = "\n\nlimitations\n  - Rename handling is conservative: the rename commit counts for the destination path, but earlier history remains under the old path.\n  - Binary changes or unavailable line statistics contribute 0 line churn.\n  - Author identity is the exact commit author string; .mailmap, bot detection, and identity merging are not applied.\n  - File age is clamped to 0 days if commit timestamps place the first observed file touch after HEAD.\n  - Results are advisory and should be treated as local derived cache data when persisted."@;
    assert(explain::explanation(path, head_commit_time, metric, file_changes, related) == pairs
        + notes + limits);
    if shows(changes, part) {
        more_text_shows_as_much(changes, part, "\n\nraw metrics"@);
        match metric {
            Some(metric) => metrics_go_on(changes + "\n\nraw metrics"@, metric, part),
            None => more_text_shows_as_much(changes + "\n\nraw metrics"@, part, nothing),
        }
    }
    if shows(metrics, part) {
        more_text_shows_as_much(metrics, part, "\n\nco-changes"@);
        if related.len() == 0 {
            more_text_shows_as_much(metrics + "\n\nco-changes"@, part, "\n  none"@);
        } else {
            partners_go_on(metrics + "\n\nco-changes"@, related, part);
        }
    }
    if shows(pairs, part) {
        more_text_shows_as_much(pairs, part, notes);
        more_text_shows_as_much(pairs + notes, part, limits);
    }
    (changes, metrics)
}

/// The explanation of a file shows each of its events, with its kind, lines, author and time.
pub proof fn explanations_show_every_event(
    path: Seq<char>,
    head_commit_time: i64,
    metric: Option<GitFileMetricsView>,
    file_changes: Seq<GitFileChangeView>,
    related: Seq<RelatedCoChangeView>,
    i: int,
    kind: Seq<char>,
)
    requires
        0 <= i < file_changes.len(),
        is_change_in_words(file_changes[i].change_kind, kind),
    ensures
        shows(
            explain::explanation(path, head_commit_time, metric, file_changes, related),
            event_line(file_changes[i], kind),
        ),
{
    let part = event_line(file_changes[i], kind);
    let texts = explanations_go_on(path, head_commit_time, metric, file_changes, related, part);
    let raw = choose|raw: Seq<char>|
        texts.0 == #[trigger] explain::change_lines(raw, file_changes);
    events_show(raw, file_changes, i, kind);
}

/// The explanation of a file shows its churn, and how many commits, authors and owners it has.
pub proof fn explanations_show_the_churn(
    path: Seq<char>,
    head_commit_time: i64,
    metric: GitFileMetricsView,
    file_changes: Seq<GitFileChangeView>,
    related: Seq<RelatedCoChangeView>,
)
    ensures
        shows(
            explain::explanation(path, head_commit_time, Some(metric), file_changes, related),
            churn_words(metric),
        ),
{
    let part = churn_words(metric);
    let texts = explanations_go_on(
        path,
        head_commit_time,
        Some(metric),
        file_changes,
        related,
        part,
    );
    metrics_go_on(texts.0 + "\n\nraw metrics"@, metric, part);
}

/// The explanation of a file shows each file that changed together with it, and how often.
pub proof fn explanations_show_every_partner(
    path: Seq<char>,
    head_commit_time: i64,
    metric: Option<GitFileMetricsView>,
    file_changes: Seq<GitFileChangeView>,
    related: Seq<RelatedCoChangeView>,
    i: int,
)
    requires
        0 <= i < related.len(),
    ensures
        shows(
            explain::explanation(path, head_commit_time, metric, file_changes, related),
            partner_line(related[i]),
        ),
{
    let part = partner_line(related[i]);
    let texts = explanations_go_on(path, head_commit_time, metric, file_changes, related, part);
    partners_show(texts.1 + "\n\nco-changes"@, related, i);
}

/// The line of a function in a ranking, behind its rank.
pub open spec fn function_line(symbol: RankedSymbolView) -> Seq<char> {
    text::aligned(digits(symbol.cyclomatic_complexity), 5) + "  "@ + text::aligned(
        digits(symbol.max_control_flow_nesting),
        7,
    ) + "  "@ + text::aligned(digits(symbol.length_lines), 5) + "  "@ + symbol.path + ":"@ + digits(
        symbol.start_line,
    ) + "  "@ + symbol.kind + "  "@ + symbol.name
}

/// A text with the line of a function behind it.
spec fn with_function(out: Seq<char>, symbol: RankedSymbolView) -> Seq<char> {
    out + text::aligned(digits(symbol.cyclomatic_complexity), 5) + "  "@ + text::aligned(digits(symbol.max_control_flow_nesting), 7) + "  "@ + text::aligned(digits(symbol.length_lines), 5) + "  "@ + symbol.path + ":"@ + digits(symbol.start_line) + "  "@ + symbol.kind + "  "@ + symbol.name
}

proof fn function_is_put_behind(out: Seq<char>, symbol: RankedSymbolView)
    ensures
        with_function(out, symbol) == out + function_line(symbol),
{
    let a = text::aligned(digits(symbol.cyclomatic_complexity), 5);
    let b = a + "  "@;
    pieces_group(out, a, "  "@);
    let c = b + text::aligned(digits(symbol.max_control_flow_nesting), 7);
    pieces_group(out, b, text::aligned(digits(symbol.max_control_flow_nesting), 7));
    let d = c + "  "@;
    pieces_group(out, c, "  "@);
    let e = d + text::aligned(digits(symbol.length_lines), 5);
    pieces_group(out, d, text::aligned(digits(symbol.length_lines), 5));
    let f = e + "  "@;
    pieces_group(out, e, "  "@);
    let g = f + symbol.path;
    pieces_group(out, f, symbol.path);
    let h = g + ":"@;
    pieces_group(out, g, ":"@);
    let i = h + digits(symbol.start_line);
    pieces_group(out, h, digits(symbol.start_line));
    let j = i + "  "@;
    pieces_group(out, i, "  "@);
    let k = j + symbol.kind;
    pieces_group(out, j, symbol.kind);
    let l = k + "  "@;
    pieces_group(out, k, "  "@);
    let m = l + symbol.name;
    pieces_group(out, l, symbol.name);
}

proof fn functions_show(out: Seq<char>, ranked: Seq<RankedSymbolView>, i: int)
    requires
        0 <= i < ranked.len(),
    ensures
        shows(complexity::rank_lines(out, ranked), function_line(ranked[i])),
    decreases ranked.len(),
{
    let front = ranked.drop_last();
    let before = complexity::rank_lines(out, front);
    let last = ranked.last();
    let own = function_line(last);
    let rank = text::aligned(numbers::decimal(ranked.len()), 4);
    let start = before + "\n"@ + rank + "  "@;
    function_is_put_behind(start, last);
    assert(complexity::rank_lines(out, ranked) == with_function(start, last));
    if i < ranked.len() - 1 {
        assert(front[i] == ranked[i]);
        functions_show(out, front, i);
        let part = function_line(ranked[i]);
        more_text_shows_as_much(before, part, "\n"@);
        more_text_shows_as_much(before + "\n"@, part, rank);
        more_text_shows_as_much(before + "\n"@ + rank, part, "  "@);
        more_text_shows_as_much(start, part, own);
    } else {
        let none = Seq::<char>::empty();
        texts_show_their_parts(start, own, none);
        assert(start + own + none =~= start + own);
    }
}

/// The summary on complexity shows the first ten functions of the ranking.
pub proof fn summaries_show_the_worst_functions(report: ComplexityReportView, i: int)
    requires
        0 <= i < 10,
        i < complexity::ranking(report.symbols).len(),
    ensures
        shows(
            complexity::summary_text(report),
            function_line(complexity::ranking(report.symbols)[i]),
        ),
{
    let ranked = complexity::ranking(report.symbols);
    let summary = report.summary;
    let totals = "Hotpath complexity summary"@ + "\ntotal files        "@ + numbers::decimal(
        summary.total_files as nat,
    ) + "\nparsed files       "@ + numbers::decimal(summary.parsed_files as nat)
        + "\nsymbols            "@ + numbers::decimal(summary.symbol_count as nat)
        + "\nfunctions/methods  "@ + numbers::decimal(summary.function_method_count as nat)
        + "\nlarge symbols      "@ + numbers::decimal(summary.large_symbol_count as nat)
        + "\nmax cyclomatic     "@ + numbers::decimal(summary.max_cyclomatic_complexity as nat)
        + "\nmax nesting        "@ + numbers::decimal(summary.max_nesting_depth as nat)
        + "\ndependency edges   "@ + numbers::decimal(summary.dependency_edge_count as nat)
        + "\nmax fan-in         "@ + numbers::decimal(summary.max_fan_in as nat)
        + "\nmax fan-out        "@ + numbers::decimal(summary.max_fan_out as nat);
    let head = totals + "\n\nmost complex function/method symbols"@
        + "\nrank  cyclo  nesting  lines  location  kind  name"@;
    if ranked.len() > 10 {
        assert(ranked.take(10)[i] == ranked[i]);
        functions_show(head, ranked.take(10), i);
    } else {
        functions_show(head, ranked, i);
    }
}

/// The line of a dependency.
pub open spec fn dependency_line(edge: ResolvedDependencyEdgeView) -> Seq<char> {
    edge.source_path + " -> "@ + edge.target_path + "  "@ + edge.kind
}

#[verifier::rlimit(60)]
proof fn edges_show(out: Seq<char>, edges: Seq<ResolvedDependencyEdgeView>, i: int)
    requires
        0 <= i < edges.len(),
    ensures
        shows(graph::edge_lines(out, edges), dependency_line(edges[i])),
    decreases edges.len(),
{
    let front = edges.drop_last();
    let before = graph::edge_lines(out, front);
    let none = Seq::<char>::empty();
    let own = dependency_line(edges.last());
    assert(before + "\n  "@ + own + none =~= graph::edge_lines(out, edges));
    if i < edges.len() - 1 {
        assert(front[i] == edges[i]);
        edges_show(out, front, i);
        let part = dependency_line(edges[i]);
        more_text_shows_as_much(before, part, "\n  "@);
        more_text_shows_as_much(before + "\n  "@, part, own);
        more_text_shows_as_much(before + "\n  "@ + own, part, none);
    } else {
        texts_show_their_parts(before + "\n  "@, own, none);
    }
}

#[verifier::rlimit(60)]
proof fn edges_go_on(out: Seq<char>, edges: Seq<ResolvedDependencyEdgeView>, part: Seq<char>)
    requires
        shows(out, part),
    ensures
        shows(graph::edge_lines(out, edges), part),
    decreases edges.len(),
{
    if edges.len() > 0 {
        let before = graph::edge_lines(out, edges.drop_last());
        let line = "\n  "@ + dependency_line(edges.last());
        edges_go_on(out, edges.drop_last(), part);
        more_text_shows_as_much(before, part, line);
        assert(before + line =~= graph::edge_lines(out, edges));
    }
}

/// The text on a graph shows every dependency that leaves or reaches its files.
pub proof fn graphs_show_every_dependency(report: GraphReportView, edge: ResolvedDependencyEdgeView)
    requires
        report.outgoing.contains(edge) || report.incoming.contains(edge),
    ensures
        shows(graph::summary_text(report), dependency_line(edge)),
{
    let part = dependency_line(edge);
    let head = "Hotpath dependency graph"@ + "\nselector       "@ + report.selector
        + "\nmatched files  "@ + numbers::decimal(report.summary.matched_file_count as nat)
        + "\noutgoing       "@ + numbers::decimal(report.summary.outgoing_edge_count as nat)
        + "\nincoming       "@ + numbers::decimal(report.summary.incoming_edge_count as nat)
        + "\n\nmatched files"@;
    let files = graph::paths_text(head, report.matched_files) + "\n\noutgoing"@;
    let outgoing = graph::edges_text(files, report.outgoing);
    if report.outgoing.contains(edge) {
        let i = choose|i: int| 0 <= i < report.outgoing.len() && report.outgoing[i] == edge;
        edges_show(files, report.outgoing, i);
        more_text_shows_as_much(outgoing, part, "\n\nincoming"@);
        if report.incoming.len() == 0 {
            more_text_shows_as_much(outgoing + "\n\nincoming"@, part, "\n  none"@);
        } else {
            edges_go_on(outgoing + "\n\nincoming"@, report.incoming, part);
        }
    } else {
        let i = choose|i: int| 0 <= i < report.incoming.len() && report.incoming[i] == edge;
        edges_show(outgoing + "\n\nincoming"@, report.incoming, i);
    }
}

} // verus!
