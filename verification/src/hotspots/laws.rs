//! What holds of every list of hotspots.

use vstd::prelude::*;

use crate::hotspots;
use crate::hotspots::{
    HotspotFactRowView, HotspotScoreRow, HotspotScoreRowView, HotspotTermRowView,
    HotspotTermView, HotspotsIndexView,
};
use crate::measure;
use crate::order;

verus! {

/// Whether a file is asked for.
pub open spec fn is_asked_for(score: HotspotScoreRowView, include_tests: bool) -> bool {
    score.is_test ==> include_tests
}

/// An index that is not complete has no hotspots; one that is has.
pub proof fn incomplete_indexes_have_no_hotspots(
    index: HotspotsIndexView,
    include_tests: bool,
    limit: Option<usize>,
)
    ensures
        hotspots::report_of(index, include_tests, limit) is Ok <==> (index.has_state
            && index.completed == Some("1"@)),
        hotspots::report_of(index, include_tests, limit) matches Ok(report) ==> report.include_tests
            == include_tests,
{
}

proof fn asked_scores_are_asked_for(
    rows: Seq<HotspotScoreRowView>,
    include_tests: bool,
    k: int,
) -> (i: int)
    requires
        0 <= k < hotspots::asked_scores(rows, include_tests).len(),
    ensures
        0 <= i < rows.len(),
        rows[i] == hotspots::asked_scores(rows, include_tests)[k],
        is_asked_for(rows[i], include_tests),
    decreases rows.len(),
{
    let front = rows.drop_last();
    let before = hotspots::asked_scores(front, include_tests);
    if k < before.len() {
        let i = asked_scores_are_asked_for(front, include_tests, k);
        assert(front[i] == rows[i]);
        i
    } else {
        rows.len() - 1
    }
}

proof fn scores_asked_for_are_kept(rows: Seq<HotspotScoreRowView>, include_tests: bool, i: int)
    requires
        0 <= i < rows.len(),
        is_asked_for(rows[i], include_tests),
    ensures
        hotspots::asked_scores(rows, include_tests).contains(rows[i]),
    decreases rows.len(),
{
    let all = hotspots::asked_scores(rows, include_tests);
    if i < rows.len() - 1 {
        let front = rows.drop_last();
        assert(front[i] == rows[i]);
        scores_asked_for_are_kept(front, include_tests, i);
        let before = hotspots::asked_scores(front, include_tests);
        let k = choose|k: int| 0 <= k < before.len() && before[k] == rows[i];
        assert(all[k] == rows[i]);
    } else {
        assert(all[all.len() - 1] == rows[i]);
    }
}

/// Every hotspot is a file of the index that is asked for, with its score; it is ranked by its
/// place in the list.
pub proof fn hotspots_are_scored_files(
    index: HotspotsIndexView,
    include_tests: bool,
    limit: Option<usize>,
    k: int,
) -> (i: int)
    requires
        hotspots::report_of(index, include_tests, limit) is Ok,
        0 <= k < (hotspots::report_of(index, include_tests, limit)->Ok_0).rows.len() <= u64::MAX,
    ensures
        0 <= i < index.scores.len(),
        is_asked_for(index.scores[i], include_tests),
        ({
            let row = (hotspots::report_of(index, include_tests, limit)->Ok_0).rows[k];
            &&& row.rank == k + 1
            &&& row.relative_path == index.scores[i].relative_path
            &&& row.score == index.scores[i].score
            &&& row.is_test == index.scores[i].is_test
            &&& index.confidence matches Some(confidence) ==> row.confidence == confidence
            &&& index.confidence is None ==> row.confidence == "none"@
        }),
{
    let asked = hotspots::asked_scores(index.scores, include_tests);
    let lt = order::by_key::<HotspotScoreRow>();
    let sorted = order::sorted_by(asked, lt);
    let ranked = hotspots::ranked_scores(index.scores, include_tests, limit);
    order::sorted_by_permutes(asked, lt);
    assert(ranked[k] == sorted[k]);
    assert(sorted.contains(sorted[k]));
    order::contains_by_multiset(sorted, asked, sorted[k]);
    let m = choose|m: int| 0 <= m < asked.len() && asked[m] == sorted[k];
    asked_scores_are_asked_for(index.scores, include_tests, m)
}

/// Every file that is asked for is a hotspot, unless there are as many as the limit.
pub proof fn files_asked_for_are_hotspots(
    index: HotspotsIndexView,
    include_tests: bool,
    limit: Option<usize>,
    i: int,
)
    requires
        hotspots::report_of(index, include_tests, limit) is Ok,
        0 <= i < index.scores.len(),
        is_asked_for(index.scores[i], include_tests),
    ensures
        ({
            let rows = (hotspots::report_of(index, include_tests, limit)->Ok_0).rows;
            ||| limit matches Some(limit) && rows.len() == limit
            ||| exists|k: int|
                0 <= k < rows.len() && (#[trigger] rows[k]).relative_path
                    == index.scores[i].relative_path && rows[k].score == index.scores[i].score
        }),
{
    let asked = hotspots::asked_scores(index.scores, include_tests);
    let lt = order::by_key::<HotspotScoreRow>();
    let sorted = order::sorted_by(asked, lt);
    scores_asked_for_are_kept(index.scores, include_tests, i);
    order::sorted_by_permutes(asked, lt);
    order::contains_by_multiset(asked, sorted, index.scores[i]);
    let rows = (hotspots::report_of(index, include_tests, limit)->Ok_0).rows;
    let k = choose|k: int| 0 <= k < sorted.len() && sorted[k] == index.scores[i];
    if k < rows.len() {
        assert(rows[k].relative_path == index.scores[i].relative_path);
    }
}

/// There are no more hotspots than the limit.
pub proof fn hotspots_keep_to_the_limit(
    index: HotspotsIndexView,
    include_tests: bool,
    limit: usize,
)
    requires
        hotspots::report_of(index, include_tests, Some(limit)) is Ok,
    ensures
        (hotspots::report_of(index, include_tests, Some(limit))->Ok_0).rows.len() <= limit,
{
}

/// The places of the facts of a file.
pub open spec fn facts_of(facts: Seq<HotspotFactRowView>, path: Seq<char>) -> Seq<
    HotspotFactRowView,
> {
    facts.filter(|fact: HotspotFactRowView| fact.relative_path == path)
}

proof fn drivers_are_first_facts(facts: Seq<HotspotFactRowView>, path: Seq<char>)
    ensures
        ({
            let own = facts_of(facts, path);
            let drivers = hotspots::drivers_of(facts, path);
            &&& drivers.len() == if own.len() > 4 {
                4
            } else {
                own.len()
            }
            &&& forall|i: int| 0 <= i < drivers.len() ==> #[trigger] drivers[i] == own[i].message
        }),
    decreases facts.len(),
{
    reveal(Seq::filter);
    if facts.len() > 0 {
        let front = facts.drop_last();
        drivers_are_first_facts(front, path);
        let before = facts_of(front, path);
        let own = facts_of(facts, path);
        assert(facts.last().relative_path == path ==> own == before.push(facts.last()));
        assert(facts.last().relative_path != path ==> own == before);
    }
}

/// What drives the score of a file are the messages of the first four of its facts.
pub proof fn drivers_are_the_first_facts(
    index: HotspotsIndexView,
    include_tests: bool,
    limit: Option<usize>,
    k: int,
)
    requires
        hotspots::report_of(index, include_tests, limit) is Ok,
        0 <= k < (hotspots::report_of(index, include_tests, limit)->Ok_0).rows.len(),
    ensures
        ({
            let row = (hotspots::report_of(index, include_tests, limit)->Ok_0).rows[k];
            let own = facts_of(index.facts, row.relative_path);
            &&& own.len() <= 4 ==> row.drivers.len() == own.len()
            &&& own.len() > 4 ==> row.drivers.len() == 4
            &&& forall|i: int|
                0 <= i < row.drivers.len() ==> #[trigger] row.drivers[i] == own[i].message
        }),
{
    let row = (hotspots::report_of(index, include_tests, limit)->Ok_0).rows[k];
    drivers_are_first_facts(index.facts, row.relative_path);
}

/// Whether a file has a term of a name that is 0.60 or more.
pub open spec fn presses(
    terms: Seq<HotspotTermRowView>,
    path: Seq<char>,
    name: Seq<char>,
) -> bool {
    exists|i: int|
        0 <= i < terms.len() && (#[trigger] terms[i]).relative_path == path && terms[i].term.name
            == name && (terms[i].term.normalized_value matches Some(value) && !measure::is_less(
            value.bits,
            0x3FE3_3333_3333_3333,
        ))
}

proof fn strong_terms_press(terms: Seq<HotspotTermRowView>, path: Seq<char>, name: Seq<char>)
    ensures
        hotspots::is_strong(hotspots::terms_of(terms, path), name) <==> presses(terms, path, name),
    decreases terms.len(),
{
    let own = hotspots::terms_of(terms, path);
    if terms.len() > 0 {
        let front = terms.drop_last();
        let before = hotspots::terms_of(front, path);
        let last = terms.len() - 1;
        strong_terms_press(front, path, name);
        if presses(front, path, name) {
            let i = choose|i: int|
                0 <= i < front.len() && (#[trigger] front[i]).relative_path == path
                    && front[i].term.name == name && (front[i].term.normalized_value matches Some(
                    value,
                ) && !measure::is_less(value.bits, 0x3FE3_3333_3333_3333));
            assert(terms[i] == front[i]);
        }
        if presses(terms, path, name) && !presses(front, path, name) {
            let i = choose|i: int|
                0 <= i < terms.len() && (#[trigger] terms[i]).relative_path == path
                    && terms[i].term.name == name && (terms[i].term.normalized_value matches Some(
                    value,
                ) && !measure::is_less(value.bits, 0x3FE3_3333_3333_3333));
            if i < front.len() {
                assert(front[i] == terms[i]);
            }
            assert(i == last);
            assert(own[own.len() - 1] == terms[last].term);
        }
        if hotspots::is_strong(before, name) {
            let i = choose|i: int|
                0 <= i < before.len() && (#[trigger] before[i]).name == name
                    && hotspots::is_strong_term(before[i]);
            assert(own[i] == before[i]);
        }
        if hotspots::is_strong(own, name) && !hotspots::is_strong(before, name) {
            let i = choose|i: int|
                0 <= i < own.len() && (#[trigger] own[i]).name == name && hotspots::is_strong_term(
                    own[i],
                );
            if i < before.len() {
                assert(before[i] == own[i]);
            }
            assert(terms[last].relative_path == path);
        }
    }
}

/// One where something holds, else nothing.
pub open spec fn one_if(holds: bool) -> int {
    if holds {
        1
    } else {
        0
    }
}

/// What stands out about a file is tagged: the terms that press, and what kind of file it is; and
/// nothing else.
pub proof fn tags_say_what_stands_out(
    index: HotspotsIndexView,
    include_tests: bool,
    limit: Option<usize>,
    k: int,
)
    requires
        hotspots::report_of(index, include_tests, limit) is Ok,
        0 <= k < (hotspots::report_of(index, include_tests, limit)->Ok_0).rows.len(),
    ensures
        ({
            let row = (hotspots::report_of(index, include_tests, limit)->Ok_0).rows[k];
            let score = hotspots::ranked_scores(index.scores, include_tests, limit)[k];
            let path = row.relative_path;
            let terms = index.terms;
            let couples = presses(terms, path, "cochange_pressure"@) || presses(
                terms,
                path,
                "source_coupling_pressure"@,
            );
            &&& presses(terms, path, "churn"@) ==> row.tags.contains("high churn"@)
            &&& couples ==> row.tags.contains("coupling pressure"@)
            &&& presses(terms, path, "ownership_risk"@) ==> row.tags.contains("ownership risk"@)
            &&& presses(terms, path, "size"@) ==> row.tags.contains("large file"@)
            &&& presses(terms, path, "complexity_pressure"@) ==> row.tags.contains(
                "complexity pressure"@,
            )
            &&& presses(terms, path, "recent_churn"@) ==> row.tags.contains("recent churn"@)
            &&& row.is_test ==> row.tags.contains("test file"@)
            &&& score.is_generated ==> row.tags.contains("generated"@)
            &&& score.is_vendor ==> row.tags.contains("vendor"@)
            &&& row.tags.len() == one_if(presses(terms, path, "churn"@)) + one_if(couples) + one_if(
                presses(terms, path, "ownership_risk"@),
            ) + one_if(presses(terms, path, "size"@)) + one_if(
                presses(terms, path, "complexity_pressure"@),
            ) + one_if(presses(terms, path, "recent_churn"@)) + one_if(row.is_test) + one_if(
                score.is_generated,
            ) + one_if(score.is_vendor)
        }),
{
    let scores = hotspots::ranked_scores(index.scores, include_tests, limit);
    let score = scores[k];
    let path = score.relative_path;
    let own = hotspots::terms_of(index.terms, path);
    strong_terms_press(index.terms, path, "churn"@);
    strong_terms_press(index.terms, path, "cochange_pressure"@);
    strong_terms_press(index.terms, path, "source_coupling_pressure"@);
    strong_terms_press(index.terms, path, "ownership_risk"@);
    strong_terms_press(index.terms, path, "size"@);
    strong_terms_press(index.terms, path, "complexity_pressure"@);
    strong_terms_press(index.terms, path, "recent_churn"@);
    tags_are_held(score, own);
}

proof fn tags_are_held(score: HotspotScoreRowView, own: Seq<HotspotTermView>)
    ensures
        ({
            let tags = hotspots::tags_of(score, own);
            let couples = hotspots::is_strong(own, "cochange_pressure"@) || hotspots::is_strong(
                own,
                "source_coupling_pressure"@,
            );
            &&& hotspots::is_strong(own, "churn"@) ==> tags.contains("high churn"@)
            &&& couples ==> tags.contains("coupling pressure"@)
            &&& hotspots::is_strong(own, "ownership_risk"@) ==> tags.contains("ownership risk"@)
            &&& hotspots::is_strong(own, "size"@) ==> tags.contains("large file"@)
            &&& hotspots::is_strong(own, "complexity_pressure"@) ==> tags.contains(
                "complexity pressure"@,
            )
            &&& hotspots::is_strong(own, "recent_churn"@) ==> tags.contains("recent churn"@)
            &&& score.is_test ==> tags.contains("test file"@)
            &&& score.is_generated ==> tags.contains("generated"@)
            &&& score.is_vendor ==> tags.contains("vendor"@)
        }),
{
    let couples = hotspots::is_strong(own, "cochange_pressure"@) || hotspots::is_strong(
        own,
        "source_coupling_pressure"@,
    );
    let a = hotspots::tag_if(hotspots::is_strong(own, "churn"@), "high churn"@);
    let b = hotspots::tag_if(couples, "coupling pressure"@);
    let c = hotspots::tag_if(hotspots::is_strong(own, "ownership_risk"@), "ownership risk"@);
    let d = hotspots::tag_if(hotspots::is_strong(own, "size"@), "large file"@);
    let e = hotspots::tag_if(
        hotspots::is_strong(own, "complexity_pressure"@),
        "complexity pressure"@,
    );
    let f = hotspots::tag_if(hotspots::is_strong(own, "recent_churn"@), "recent churn"@);
    let g = hotspots::tag_if(score.is_test, "test file"@);
    let h = hotspots::tag_if(score.is_generated, "generated"@);
    let i = hotspots::tag_if(score.is_vendor, "vendor"@);
    tag_is_held(hotspots::is_strong(own, "churn"@), "high churn"@);
    tag_is_held(couples, "coupling pressure"@);
    tag_is_held(hotspots::is_strong(own, "ownership_risk"@), "ownership risk"@);
    tag_is_held(hotspots::is_strong(own, "size"@), "large file"@);
    tag_is_held(hotspots::is_strong(own, "complexity_pressure"@), "complexity pressure"@);
    tag_is_held(hotspots::is_strong(own, "recent_churn"@), "recent churn"@);
    tag_is_held(score.is_test, "test file"@);
    tag_is_held(score.is_generated, "generated"@);
    tag_is_held(score.is_vendor, "vendor"@);
    both_are_held(a, b);
    both_are_held(a + b, c);
    both_are_held(a + b + c, d);
    both_are_held(a + b + c + d, e);
    both_are_held(a + b + c + d + e, f);
    both_are_held(a + b + c + d + e + f, g);
    both_are_held(a + b + c + d + e + f + g, h);
    both_are_held(a + b + c + d + e + f + g + h, i);
}

proof fn tag_is_held(applies: bool, tag: Seq<char>)
    ensures
        applies ==> hotspots::tag_if(applies, tag).contains(tag),
{
    assert(seq![tag][0] == tag);
}

proof fn both_are_held(a: Seq<Seq<char>>, b: Seq<Seq<char>>)
    ensures
        forall|x: Seq<char>| a.contains(x) || b.contains(x) ==> #[trigger] (a + b).contains(x),
{
    assert forall|x: Seq<char>| a.contains(x) || b.contains(x) implies #[trigger] (a + b).contains(
        x,
    ) by {
        if a.contains(x) {
            let k = choose|k: int| 0 <= k < a.len() && a[k] == x;
            assert((a + b)[k] == x);
        } else {
            let k = choose|k: int| 0 <= k < b.len() && b[k] == x;
            assert((a + b)[a.len() + k] == x);
        }
    }
}

} // verus!
