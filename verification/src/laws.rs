use vstd::prelude::*;
use crate::answers::all_mapping;
use crate::answers::cb_mapping;
use crate::answers::checkbox_correct;
use crate::answers::lemma_cb_mapping_exact;
use crate::model::AnswerValueV;
use crate::numstr::decimal;
use crate::answers::radio_mapping;
use crate::answers::radio_result;
use crate::answers::sort_exact;
use crate::answers::sort_human;
use crate::answers::sort_mapping;
use crate::answers::ti_human;
use crate::answers::ti_mapping;
use crate::answers::values_all_present;
use crate::answers::positions_all_present;
use crate::machine::FetchKind;
use crate::machine::kind_result_step;
use crate::machine::need_result_start;
use crate::answers::input_result;
use crate::answers::unsupported_result;
use crate::answers::value_or_note;
use crate::error::ErrorV;
use crate::machine::PhaseV;
use crate::machine::QKind;
use crate::machine::QStepV;
use crate::machine::begin_step;
use crate::machine::find_answer;
use crate::machine::kind_of;
use crate::machine::snapshot_step;
use crate::machine::submitted_step;
use crate::model::AnswerV;
use crate::model::QuestionV;
use crate::model::SubmissionV;
use crate::oracle::OracleV;
use crate::oracle::correct_ids;
use crate::oracle::graded_answer;
use crate::oracle::graded_question;
use crate::oracle::graded_snapshot;
use crate::oracle::oracle_fetch;
use crate::oracle::oracle_submit;
use crate::cache::find_in_group;
use crate::cache::find_question;
use crate::driver::run_question;
use crate::driver::run_question_from;
use crate::driver::step_rank;
use crate::driver::run_plan;
use crate::model::GeneratedAnswerV;
use crate::answers::error_result;
use crate::solver::contains_answer;
use crate::solver::lemma_normalize_pos_bounds;
use crate::solver::line_view;
use crate::solver::normalize_pos;
use crate::driver::solve_run;
use crate::sorting::lemma_sort_by_key_of_sorted;
use crate::sorting::sorted_by_key;
use crate::sorting::sorted_question_view;
use crate::sorting::sorted_snapshot_view;

verus! {

/// Every question of the snapshot already has its answers ascending by
/// sort key.
pub open spec fn snapshot_answers_sorted(s: Seq<Seq<QuestionV>>) -> bool {
    forall|gi: int, qi: int|
        0 <= gi < s.len() && 0 <= qi < s[gi].len() ==> sorted_by_key(
            #[trigger] s[gi][qi].answers,
        )
}

/// Ordering a snapshot whose answers are already ordered changes
/// nothing.
proof fn lemma_sorted_snapshot_identity(s: Seq<Seq<QuestionV>>)
    requires
        snapshot_answers_sorted(s),
    ensures
        sorted_snapshot_view(s) == s,
{
    let v = sorted_snapshot_view(s);
    assert forall|gi: int| 0 <= gi < s.len() implies v[gi] == s[gi] by {
        assert forall|qi: int| 0 <= qi < s[gi].len() implies v[gi][qi] == s[gi][qi] by {
            lemma_sort_by_key_of_sorted(s[gi][qi].answers);
            assert(sorted_question_view(s[gi][qi]) == s[gi][qi]);
        }
        assert(v[gi] =~= s[gi]);
    }
    assert(v =~= s);
}

/// Grading never moves an option or changes its key, so a graded
/// snapshot of ordered answers is still ordered.
proof fn lemma_graded_stays_sorted(
    b: Seq<Seq<QuestionV>>,
    c: Seq<(u32, Seq<u32>)>,
    s: Seq<u32>,
)
    requires
        snapshot_answers_sorted(b),
    ensures
        snapshot_answers_sorted(graded_snapshot(b, c, s)),
{
    let g = graded_snapshot(b, c, s);
    assert forall|gi: int, qi: int|
        0 <= gi < g.len() && 0 <= qi < g[gi].len() implies sorted_by_key(
        g[gi][qi].answers,
    ) by {
        let bq = b[gi][qi];
        let gq = g[gi][qi];
        assert(gq == graded_question(bq, s.contains(bq.id), correct_ids(c, bq.id)));
        assert(sorted_by_key(bq.answers));
        assert forall|i: int, j: int|
            0 <= i < j < gq.answers.len() implies crate::sorting::key_le(
            gq.answers[i].sort,
            gq.answers[j].sort,
        ) by {
            assert(gq.answers[i] == graded_answer(
                bq.answers[i],
                s.contains(bq.id),
                correct_ids(c, bq.id),
            ));
            assert(gq.answers[j] == graded_answer(
                bq.answers[j],
                s.contains(bq.id),
                correct_ids(c, bq.id),
            ));
        }
    }
}

/// Looking a question up commutes with grading: the graded snapshot
/// serves exactly the graded image of the base question.
proof fn lemma_find_in_group_graded(
    grp: Seq<QuestionV>,
    gg: Seq<QuestionV>,
    c: Seq<(u32, Seq<u32>)>,
    s: Seq<u32>,
    qid: u32,
)
    requires
        gg.len() == grp.len(),
        forall|j: int| 0 <= j < grp.len() ==> gg[j] == graded_question(
            #[trigger] grp[j],
            s.contains(grp[j].id),
            correct_ids(c, grp[j].id),
        ),
    ensures
        (match find_in_group(grp, qid) {
            None => find_in_group(gg, qid) is None,
            Some(qq) => qq.id == qid && find_in_group(gg, qid) == Some(
                graded_question(qq, s.contains(qid), correct_ids(c, qid)),
            ),
        }),
    decreases grp.len(),
{
    if grp.len() > 0 {
        assert(gg[0] == graded_question(grp[0], s.contains(grp[0].id), correct_ids(c, grp[0].id)));
        assert(gg[0].id == grp[0].id);
        if grp[0].id != qid {
            let grp2 = grp.drop_first();
            let gg2 = gg.drop_first();
            assert forall|j: int| 0 <= j < grp2.len() implies gg2[j] == graded_question(
                grp2[j],
                s.contains(grp2[j].id),
                correct_ids(c, grp2[j].id),
            ) by {
                assert(grp2[j] == grp[j + 1]);
                assert(gg2[j] == gg[j + 1]);
            }
            lemma_find_in_group_graded(grp2, gg2, c, s, qid);
        }
    }
}

proof fn lemma_find_question_graded(
    b: Seq<Seq<QuestionV>>,
    c: Seq<(u32, Seq<u32>)>,
    s: Seq<u32>,
    qid: u32,
)
    ensures
        (match find_question(b, qid) {
            None => find_question(graded_snapshot(b, c, s), qid) is None,
            Some(qq) => qq.id == qid && find_question(graded_snapshot(b, c, s), qid) == Some(
                graded_question(qq, s.contains(qid), correct_ids(c, qid)),
            ),
        }),
    decreases b.len(),
{
    let g = graded_snapshot(b, c, s);
    if b.len() > 0 {
        assert forall|j: int| 0 <= j < b[0].len() implies g[0][j] == graded_question(
            b[0][j],
            s.contains(b[0][j].id),
            correct_ids(c, b[0][j].id),
        ) by {
        }
        assert(g[0].len() == b[0].len());
        lemma_find_in_group_graded(b[0], g[0], c, s, qid);
        match find_in_group(b[0], qid) {
            Some(_) => {},
            None => {
                lemma_find_question_graded(b.drop_first(), c, s, qid);
                assert(g.drop_first() =~= graded_snapshot(b.drop_first(), c, s));
                assert(find_question(g, qid) == find_question(g.drop_first(), qid));
            },
        }
    }
}

/// The first answer with a given id, when the ids are pairwise distinct
/// and the id sits at position `j`, is the answer at position `j`.
proof fn lemma_find_answer_at(ans: Seq<AnswerV>, id: u32, j: int)
    requires
        0 <= j < ans.len(),
        ans[j].id == id,
        forall|i: int| 0 <= i < j ==> (#[trigger] ans[i].id) != id,
    ensures
        find_answer(ans, id) == Some(ans[j]),
    decreases j,
{
    if j > 0 {
        let t = ans.drop_first();
        assert forall|i: int| 0 <= i < j - 1 implies (#[trigger] t[i].id) != id by {
            assert(t[i] == ans[i + 1]);
        }
        assert(t[j - 1] == ans[j]);
        lemma_find_answer_at(t, id, j - 1);
    }
}

/// One probing round of a single-choice question, continued to the end:
/// with the unique correct option standing at position `k` (at or after
/// the probe position), the run confirms exactly that option.
proof fn lemma_radio_run(
    q: QuestionV,
    idx: int,
    cache: Option<Seq<Seq<QuestionV>>>,
    o: OracleV,
    k: int,
)
    requires
        0 <= idx <= k < q.answers.len(),
        snapshot_answers_sorted(o.base),
        (match find_question(o.base, q.id) {
            Some(qb) => qb.answers.len() == q.answers.len() && (forall|j: int|
                0 <= j < q.answers.len() ==> (#[trigger] qb.answers[j]).id == q.answers[j].id),
            None => false,
        }),
        forall|i: int, j: int|
            0 <= i < j < q.answers.len() ==> (#[trigger] q.answers[i].id) != (
            #[trigger] q.answers[j].id),
        correct_ids(o.correct, q.id).contains(q.answers[k].id),
        forall|j: int|
            0 <= j < q.answers.len() && j != k ==> !correct_ids(o.correct, q.id).contains(
                (#[trigger] q.answers[j]).id,
            ),
    ensures
        run_question(
            q,
            PhaseV::RadioSubmitted { idx },
            QStepV::Submit(SubmissionV { question_id: q.id, mapping: radio_mapping(q, idx) }),
            cache,
            o,
        ).0 == Ok::<_, ErrorV>(radio_result(q, k)),
    decreases k - idx,
{
    let s0 = SubmissionV { question_id: q.id, mapping: radio_mapping(q, idx) };
    let o1 = oracle_submit(o, s0);
    let (ph1, st1) = submitted_step(q, PhaseV::RadioSubmitted { idx });
    assert(ph1 == PhaseV::RadioFetching { idx } && st1 == QStepV::Fetch);
    let (snap, o2) = oracle_fetch(o1);
    assert(snap == graded_snapshot(o.base, o.correct, o1.submitted));
    lemma_graded_stays_sorted(o.base, o.correct, o1.submitted);
    lemma_sorted_snapshot_identity(snap);
    let sorted = sorted_snapshot_view(snap);
    assert(sorted == snap);
    assert(o1.submitted == o.submitted.push(q.id));
    assert(o1.submitted[o.submitted.len() as int] == q.id);
    assert(o1.submitted.contains(q.id));
    lemma_find_question_graded(o.base, o.correct, o1.submitted, q.id);
    let qb = find_question(o.base, q.id)->Some_0;
    let rq = graded_question(qb, true, correct_ids(o.correct, q.id));
    assert(find_question(sorted, q.id) == Some(rq));
    let (ph2, st2) = snapshot_step(q, PhaseV::RadioFetching { idx }, sorted);
    let corr = correct_ids(o.correct, q.id);
    assert forall|j: int| 0 <= j < q.answers.len() implies (#[trigger] rq.answers[j]).id
        == q.answers[j].id && rq.answers[j].user_correct == Some(corr.contains(q.answers[j].id)) by {
        assert(rq.answers[j] == graded_answer(qb.answers[j], true, corr));
    }
    assert forall|i: int| 0 <= i < idx implies (#[trigger] rq.answers[i].id) != q.answers[idx].id
        by {}
    lemma_find_answer_at(rq.answers, q.answers[idx].id, idx);
    assert(find_answer(rq.answers, q.answers[idx].id) == Some(rq.answers[idx]));
    assert(run_question(q, PhaseV::RadioSubmitted { idx }, QStepV::Submit(s0), cache, o)
        == run_question(q, ph1, st1, None, o1));
    assert(run_question(q, ph1, QStepV::Fetch, None, o1) == run_question(
        q,
        ph2,
        st2,
        Some(sorted),
        o2,
    ));
    if idx == k {
        assert(rq.answers[idx].user_correct == Some(true));
        assert(ph2 == PhaseV::Complete && st2 == QStepV::Done(radio_result(q, idx)));
        assert(run_question(q, ph2, st2, Some(sorted), o2) == (
            Ok::<_, ErrorV>(radio_result(q, k)),
            Some(sorted),
            o2,
        ));
    } else {
        assert(!corr.contains(q.answers[idx].id));
        assert(rq.answers[idx].user_correct == Some(false));
        assert(idx + 1 < q.answers.len());
        assert(ph2 == PhaseV::RadioSubmitted { idx: idx + 1 } && st2 == QStepV::Submit(
            SubmissionV { question_id: q.id, mapping: radio_mapping(q, idx + 1) },
        ));
        lemma_radio_run(q, idx + 1, Some(sorted), o2, k);
    }
}

/// For every single-choice question with exactly one option the platform
/// flags correct, the engine's full run against the platform model
/// confirms that option: the answer reports its 1-based position, its
/// display value, and its id — whatever snapshot was cached beforehand.
pub proof fn lemma_radio_finds_unique_correct(
    q: QuestionV,
    cache: Option<Seq<Seq<QuestionV>>>,
    o: OracleV,
    k: int,
)
    requires
        kind_of(q.qtype) == QKind::Radio,
        0 <= k < q.answers.len(),
        snapshot_answers_sorted(o.base),
        (match find_question(o.base, q.id) {
            Some(qb) => qb.answers.len() == q.answers.len() && (forall|j: int|
                0 <= j < q.answers.len() ==> (#[trigger] qb.answers[j]).id == q.answers[j].id),
            None => false,
        }),
        forall|i: int, j: int|
            0 <= i < j < q.answers.len() ==> (#[trigger] q.answers[i].id) != (
            #[trigger] q.answers[j].id),
        correct_ids(o.correct, q.id).contains(q.answers[k].id),
        forall|j: int|
            0 <= j < q.answers.len() && j != k ==> !correct_ids(o.correct, q.id).contains(
                (#[trigger] q.answers[j]).id,
            ),
    ensures
        run_question_from(q, cache, o).0 == Ok::<_, ErrorV>(radio_result(q, k)),
{
    let (ph, c2, st) = begin_step(q, cache);
    assert(q.answers.len() > 0);
    assert(ph == PhaseV::RadioSubmitted { idx: 0 });
    assert(st == QStepV::Submit(SubmissionV { question_id: q.id, mapping: radio_mapping(q, 0) }));
    assert(c2 == cache);
    lemma_radio_run(q, 0, cache, o, k);
}

/// A fill-in or numeric question whose option count is not exactly one is
/// rejected with the option-count violation before any network traffic:
/// the engine's very first step ends the question, issues no submission
/// and no fetch, and leaves the cache exactly as it was.
pub proof fn lemma_bad_slot_count_fails_early(q: QuestionV, cache: Option<Seq<Seq<QuestionV>>>)
    requires
        kind_of(q.qtype) == QKind::Input || kind_of(q.qtype) == QKind::NumericInput,
        q.answers.len() != 1,
    ensures
        begin_step(q, cache) == (
            PhaseV::Complete,
            cache,
            QStepV::Fail(ErrorV::Unknown("there must be exactly 1 answer"@)),
        ),
{
}

/// An ordering question with any option that lacks its position is
/// rejected with the missing-position violation before any network
/// traffic: no submission, no fetch, the cache untouched.
pub proof fn lemma_missing_position_fails_early(q: QuestionV, cache: Option<Seq<Seq<QuestionV>>>)
    requires
        kind_of(q.qtype) == QKind::Sorting,
        !crate::answers::positions_all_present(q.answers),
    ensures
        begin_step(q, cache) == (
            PhaseV::Complete,
            cache,
            QStepV::Fail(ErrorV::Unknown("correct_position must be Some(u32)"@)),
        ),
{
}

/// A question that has just submitted an answer mid-probe never reads a
/// stale snapshot: its next command after the acknowledgement is always a
/// fresh fetch.  (That the acknowledgement also empties the cache is the
/// contract of `QuestionSolver::on_submitted`.)
pub proof fn lemma_probe_refetches(q: QuestionV, phase: PhaseV)
    requires
        phase is RadioSubmitted || phase is CheckboxSubmittedAll,
    ensures
        submitted_step(q, phase).1 == QStepV::Fetch,
{
}

/// An answer option with its grading feedback erased.
pub open spec fn strip_answer(a: AnswerV) -> AnswerV {
    AnswerV { user_correct: None, ..a }
}

pub open spec fn strip_answers(s: Seq<AnswerV>) -> Seq<AnswerV> {
    s.map_values(|a: AnswerV| strip_answer(a))
}

/// A question with every option's grading feedback erased: what of a
/// served question does not depend on the submission history.
pub open spec fn strip_question(q: QuestionV) -> QuestionV {
    QuestionV { answers: strip_answers(q.answers), ..q }
}

pub open spec fn strip_group(g: Seq<QuestionV>) -> Seq<QuestionV> {
    g.map_values(|q: QuestionV| strip_question(q))
}

pub open spec fn strip_snapshot(s: Seq<Seq<QuestionV>>) -> Seq<Seq<QuestionV>> {
    s.map_values(|g: Seq<QuestionV>| strip_group(g))
}

pub open spec fn strip_cache(c: Option<Seq<Seq<QuestionV>>>) -> Option<Seq<Seq<QuestionV>>> {
    match c {
        None => None,
        Some(s) => Some(strip_snapshot(s)),
    }
}

/// Grading touches nothing but the feedback flags.
proof fn lemma_strip_graded_question(q: QuestionV, sub: bool, corr: Seq<u32>)
    ensures
        strip_question(graded_question(q, sub, corr)) == strip_question(q),
{
    assert(strip_answers(graded_question(q, sub, corr).answers) =~= strip_answers(q.answers));
}

proof fn lemma_strip_graded_snapshot(b: Seq<Seq<QuestionV>>, c: Seq<(u32, Seq<u32>)>, s: Seq<u32>)
    ensures
        strip_snapshot(graded_snapshot(b, c, s)) == strip_snapshot(b),
{
    let g = graded_snapshot(b, c, s);
    assert forall|gi: int| 0 <= gi < b.len() implies strip_group(g[gi]) == strip_group(
        b[gi],
    ) by {
        assert forall|qi: int| 0 <= qi < b[gi].len() implies strip_group(g[gi])[qi]
            == strip_group(b[gi])[qi] by {
            lemma_strip_graded_question(
                b[gi][qi],
                s.contains(b[gi][qi].id),
                correct_ids(c, b[gi][qi].id),
            );
        }
        assert(strip_group(g[gi]) =~= strip_group(b[gi]));
    }
    assert(strip_snapshot(g) =~= strip_snapshot(b));
}

/// Erasing the feedback flags moves no option: the ordering of a
/// stripped sequence is the stripped ordering.
proof fn lemma_insert_sorted_strip(s: Seq<AnswerV>, x: AnswerV)
    ensures
        crate::sorting::insert_sorted(strip_answers(s), strip_answer(x)) == strip_answers(
            crate::sorting::insert_sorted(s, x),
        ),
    decreases s.len(),
{
    let ss = strip_answers(s);
    if s.len() == 0 {
        assert(crate::sorting::insert_sorted(ss, strip_answer(x)) =~= strip_answers(
            crate::sorting::insert_sorted(s, x),
        ));
    } else {
        assert(ss[0] == strip_answer(s[0]));
        assert(ss[0].sort == s[0].sort);
        if crate::sorting::key_le(s[0].sort, x.sort) {
            lemma_insert_sorted_strip(s.drop_first(), x);
            assert(ss.drop_first() =~= strip_answers(s.drop_first()));
            assert(crate::sorting::insert_sorted(ss, strip_answer(x)) =~= strip_answers(
                crate::sorting::insert_sorted(s, x),
            ));
        } else {
            assert(crate::sorting::insert_sorted(ss, strip_answer(x)) =~= strip_answers(
                crate::sorting::insert_sorted(s, x),
            ));
        }
    }
}

proof fn lemma_sort_strip(s: Seq<AnswerV>)
    ensures
        crate::sorting::sort_by_key(strip_answers(s)) == strip_answers(
            crate::sorting::sort_by_key(s),
        ),
    decreases s.len(),
{
    let ss = strip_answers(s);
    if s.len() == 0 {
        assert(ss =~= Seq::<AnswerV>::empty());
        assert(strip_answers(crate::sorting::sort_by_key(s)) =~= Seq::<AnswerV>::empty());
    } else {
        lemma_sort_strip(s.drop_last());
        assert(ss.drop_last() =~= strip_answers(s.drop_last()));
        assert(ss.last() == strip_answer(s.last()));
        lemma_insert_sorted_strip(crate::sorting::sort_by_key(s.drop_last()), s.last());
    }
}

proof fn lemma_sorted_question_strip(q: QuestionV)
    ensures
        sorted_question_view(strip_question(q)) == strip_question(sorted_question_view(q)),
{
    lemma_sort_strip(q.answers);
}

proof fn lemma_sorted_snapshot_strip(s: Seq<Seq<QuestionV>>)
    ensures
        sorted_snapshot_view(strip_snapshot(s)) == strip_snapshot(sorted_snapshot_view(s)),
{
    let lhs = sorted_snapshot_view(strip_snapshot(s));
    let rhs = strip_snapshot(sorted_snapshot_view(s));
    assert forall|gi: int| 0 <= gi < s.len() implies lhs[gi] == rhs[gi] by {
        assert forall|qi: int| 0 <= qi < s[gi].len() implies lhs[gi][qi] == rhs[gi][qi] by {
            lemma_sorted_question_strip(s[gi][qi]);
        }
        assert(lhs[gi] =~= rhs[gi]);
    }
    assert(lhs =~= rhs);
}


proof fn lemma_find_in_group_strip(g: Seq<QuestionV>, qid: u32)
    ensures
        (match find_in_group(g, qid) {
            None => find_in_group(strip_group(g), qid) is None,
            Some(q) => find_in_group(strip_group(g), qid) == Some(strip_question(q)),
        }),
    decreases g.len(),
{
    if g.len() > 0 {
        assert(strip_group(g)[0] == strip_question(g[0]));
        if g[0].id != qid {
            lemma_find_in_group_strip(g.drop_first(), qid);
            assert(strip_group(g).drop_first() =~= strip_group(g.drop_first()));
        }
    }
}

proof fn lemma_find_question_strip(s: Seq<Seq<QuestionV>>, qid: u32)
    ensures
        (match find_question(s, qid) {
            None => find_question(strip_snapshot(s), qid) is None,
            Some(q) => find_question(strip_snapshot(s), qid) == Some(strip_question(q)),
        }),
    decreases s.len(),
{
    if s.len() > 0 {
        assert(strip_snapshot(s)[0] == strip_group(s[0]));
        lemma_find_in_group_strip(s[0], qid);
        match find_in_group(s[0], qid) {
            Some(_) => {},
            None => {
                lemma_find_question_strip(s.drop_first(), qid);
                assert(strip_snapshot(s).drop_first() =~= strip_snapshot(s.drop_first()));
            },
        }
    }
}

proof fn lemma_find_in_group_sorted(g: Seq<QuestionV>, gs: Seq<QuestionV>, qid: u32)
    requires
        gs.len() == g.len(),
        forall|j: int| 0 <= j < g.len() ==> gs[j] == sorted_question_view(#[trigger] g[j]),
    ensures
        (match find_in_group(g, qid) {
            None => find_in_group(gs, qid) is None,
            Some(q) => find_in_group(gs, qid) == Some(sorted_question_view(q)),
        }),
    decreases g.len(),
{
    if g.len() > 0 {
        assert(gs[0] == sorted_question_view(g[0]));
        if g[0].id != qid {
            let g2 = g.drop_first();
            let gs2 = gs.drop_first();
            assert forall|j: int| 0 <= j < g2.len() implies gs2[j] == sorted_question_view(
                g2[j],
            ) by {
                assert(g2[j] == g[j + 1]);
                assert(gs2[j] == gs[j + 1]);
            }
            lemma_find_in_group_sorted(g2, gs2, qid);
        }
    }
}

/// Ordering a snapshot moves no question, so lookups commute with it.
proof fn lemma_find_question_sorted(s: Seq<Seq<QuestionV>>, qid: u32)
    ensures
        (match find_question(s, qid) {
            None => find_question(sorted_snapshot_view(s), qid) is None,
            Some(q) => find_question(sorted_snapshot_view(s), qid) == Some(
                sorted_question_view(q),
            ),
        }),
    decreases s.len(),
{
    let v = sorted_snapshot_view(s);
    if s.len() > 0 {
        assert(v[0].len() == s[0].len());
        assert forall|j: int| 0 <= j < s[0].len() implies v[0][j] == sorted_question_view(
            s[0][j],
        ) by {
        }
        lemma_find_in_group_sorted(s[0], v[0], qid);
        match find_in_group(s[0], qid) {
            Some(_) => {},
            None => {
                lemma_find_question_sorted(s.drop_first(), qid);
                assert(v.drop_first() =~= sorted_snapshot_view(s.drop_first()));
            },
        }
    }
}

/// Two option sequences that agree after flag erasure agree on every
/// field but the flag.
proof fn lemma_strip_answers_pointwise(a1: Seq<AnswerV>, a2: Seq<AnswerV>)
    requires
        strip_answers(a1) == strip_answers(a2),
    ensures
        a1.len() == a2.len(),
        forall|i: int|
            0 <= i < a1.len() ==> (#[trigger] a1[i]).id == a2[i].id && a1[i].value == a2[i].value
                && a1[i].sort == a2[i].sort && a1[i].correct_position == a2[i].correct_position,
{
    assert(strip_answers(a1).len() == a1.len());
    assert(strip_answers(a2).len() == a2.len());
    assert forall|i: int|
        0 <= i < a1.len() implies (#[trigger] a1[i]).id == a2[i].id && a1[i].value == a2[i].value
        && a1[i].sort == a2[i].sort && a1[i].correct_position == a2[i].correct_position by {
        assert(strip_answers(a1)[i] == strip_answers(a2)[i]);
        assert(strip_answer(a1[i]) == strip_answer(a2[i]));
    }
}

proof fn lemma_all_mapping_congr(a1: Seq<AnswerV>, a2: Seq<AnswerV>, n: int)
    requires
        strip_answers(a1) == strip_answers(a2),
        n <= a1.len(),
    ensures
        all_mapping(a1, n) == all_mapping(a2, n),
    decreases n,
{
    lemma_strip_answers_pointwise(a1, a2);
    if n > 0 {
        lemma_all_mapping_congr(a1, a2, n - 1);
    }
}

proof fn lemma_sort_builders_congr(a1: Seq<AnswerV>, a2: Seq<AnswerV>, n: int)
    requires
        strip_answers(a1) == strip_answers(a2),
        n <= a1.len(),
    ensures
        sort_mapping(a1, n) == sort_mapping(a2, n),
        sort_human(a1, n) == sort_human(a2, n),
        sort_exact(a1, n) == sort_exact(a2, n),
    decreases n,
{
    lemma_strip_answers_pointwise(a1, a2);
    if n > 0 {
        lemma_sort_builders_congr(a1, a2, n - 1);
    }
}

proof fn lemma_ti_builders_congr(a1: Seq<AnswerV>, a2: Seq<AnswerV>, n: int)
    requires
        strip_answers(a1) == strip_answers(a2),
        n <= a1.len(),
    ensures
        ti_mapping(a1, n) == ti_mapping(a2, n),
        ti_human(a1, n) == ti_human(a2, n),
    decreases n,
{
    lemma_strip_answers_pointwise(a1, a2);
    if n > 0 {
        lemma_ti_builders_congr(a1, a2, n - 1);
    }
}

proof fn lemma_presence_congr(a1: Seq<AnswerV>, a2: Seq<AnswerV>)
    requires
        strip_answers(a1) == strip_answers(a2),
    ensures
        values_all_present(a1) == values_all_present(a2),
        positions_all_present(a1) == positions_all_present(a2),
{
    lemma_strip_answers_pointwise(a1, a2);
    if values_all_present(a1) {
        assert forall|i: int| 0 <= i < a2.len() implies (#[trigger] a2[i].value) is Some by {
            assert(a1[i].value is Some);
        }
    }
    if values_all_present(a2) {
        assert forall|i: int| 0 <= i < a1.len() implies (#[trigger] a1[i].value) is Some by {
            assert(a2[i].value is Some);
        }
    }
    if positions_all_present(a1) {
        assert forall|i: int|
            0 <= i < a2.len() implies (#[trigger] a2[i].correct_position) is Some by {
            assert(a1[i].correct_position is Some);
        }
    }
    if positions_all_present(a2) {
        assert forall|i: int|
            0 <= i < a1.len() implies (#[trigger] a1[i].correct_position) is Some by {
            assert(a2[i].correct_position is Some);
        }
    }
}


/// Lookups in two snapshots that agree after flag erasure agree after
/// flag erasure.
proof fn lemma_find_question_strip_eq(
    s1: Seq<Seq<QuestionV>>,
    s2: Seq<Seq<QuestionV>>,
    qid: u32,
)
    requires
        strip_snapshot(s1) == strip_snapshot(s2),
    ensures
        (match (find_question(s1, qid), find_question(s2, qid)) {
            (None, None) => true,
            (Some(r1), Some(r2)) => strip_question(r1) == strip_question(r2),
            _ => false,
        }),
{
    lemma_find_question_strip(s1, qid);
    lemma_find_question_strip(s2, qid);
}

/// The fetch-dependent computations that read no grading feedback give
/// the same phase and command on flag-equivalent inputs.
proof fn lemma_kind_step_congr(
    q1: QuestionV,
    q2: QuestionV,
    kind: FetchKind,
    rq1: QuestionV,
    rq2: QuestionV,
)
    requires
        kind != FetchKind::Checkbox,
        kind == FetchKind::Numeric ==> q1.answers.len() == 1,
        strip_question(q1) == strip_question(q2),
        strip_question(rq1) == strip_question(rq2),
    ensures
        kind_result_step(q1, kind, rq1) == kind_result_step(q2, kind, rq2),
{
    assert(q1.id == q2.id && q1.question == q2.question);
    lemma_strip_answers_pointwise(q1.answers, q2.answers);
    lemma_strip_answers_pointwise(rq1.answers, rq2.answers);
    if kind == FetchKind::Numeric {
        if rq1.answers.len() > 0 {
            assert(rq1.answers[0].value == rq2.answers[0].value);
            assert(q1.answers[0].id == q2.answers[0].id);
        }
    } else if kind == FetchKind::Correspondence {
        assert(rq1.correspondence_links == strip_question(rq1).correspondence_links);
        assert(rq1.correspondence_links == rq2.correspondence_links);
    } else if kind == FetchKind::TextInput {
        lemma_presence_congr(rq1.answers, rq2.answers);
        if values_all_present(rq1.answers) {
            lemma_ti_builders_congr(rq1.answers, rq2.answers, rq1.answers.len() as int);
        }
    } else if kind == FetchKind::SelectInput {
        assert(rq1.select_input_items == strip_question(rq1).select_input_items);
        assert(rq1.select_input_items == rq2.select_input_items);
    }
}

proof fn lemma_need_result_congr(
    q1: QuestionV,
    q2: QuestionV,
    kind: FetchKind,
    c1: Option<Seq<Seq<QuestionV>>>,
    c2: Option<Seq<Seq<QuestionV>>>,
)
    requires
        kind != FetchKind::Checkbox,
        kind == FetchKind::Numeric ==> q1.answers.len() == 1,
        strip_question(q1) == strip_question(q2),
        strip_cache(c1) == strip_cache(c2),
    ensures
        ({
            let (p1, d1, s1) = need_result_start(q1, kind, c1);
            let (p2, d2, s2) = need_result_start(q2, kind, c2);
            p1 == p2 && s1 == s2 && d1 == c1 && d2 == c2
        }),
{
    assert(q1.id == q2.id);
    match (c1, c2) {
        (None, None) => {},
        (Some(s1v), Some(s2v)) => {
            lemma_find_question_strip_eq(s1v, s2v, q1.id);
            match (find_question(s1v, q1.id), find_question(s2v, q1.id)) {
                (Some(rq1), Some(rq2)) => {
                    lemma_kind_step_congr(q1, q2, kind, rq1, rq2);
                },
                _ => {},
            }
        },
        _ => {
            assert(false);
        },
    }
}

/// The engine's first step on a question reads no grading feedback: two
/// flag-equivalent questions over flag-equivalent caches start exactly
/// alike, and neither touches the cache.
proof fn lemma_begin_congr(
    q1: QuestionV,
    q2: QuestionV,
    c1: Option<Seq<Seq<QuestionV>>>,
    c2: Option<Seq<Seq<QuestionV>>>,
)
    requires
        strip_question(q1) == strip_question(q2),
        strip_cache(c1) == strip_cache(c2),
    ensures
        ({
            let (p1, d1, s1) = begin_step(q1, c1);
            let (p2, d2, s2) = begin_step(q2, c2);
            p1 == p2 && s1 == s2 && d1 == c1 && d2 == c2
        }),
{
    assert(q1.qtype == q2.qtype);
    assert(q1.id == q2.id && q1.question == q2.question);
    lemma_strip_answers_pointwise(q1.answers, q2.answers);
    match kind_of(q1.qtype) {
        QKind::Radio => {
            if q1.answers.len() > 0 {
                assert(q1.answers[0].id == q2.answers[0].id);
            }
        },
        QKind::Checkbox => {
            lemma_all_mapping_congr(q1.answers, q2.answers, q1.answers.len() as int);
        },
        QKind::Input => {
            if q1.answers.len() == 1 {
                assert(q1.answers[0].id == q2.answers[0].id);
                assert(value_or_note(q1.answers[0].value) == value_or_note(q2.answers[0].value));
                assert(input_result(q1) == input_result(q2));
            }
        },
        QKind::NumericInput => {
            if q1.answers.len() == 1 {
                lemma_need_result_congr(q1, q2, FetchKind::Numeric, c1, c2);
            }
        },
        QKind::Sorting => {
            lemma_presence_congr(q1.answers, q2.answers);
            if positions_all_present(q1.answers) {
                lemma_sort_builders_congr(q1.answers, q2.answers, q1.answers.len() as int);
            }
        },
        QKind::Correspondence => {
            lemma_need_result_congr(q1, q2, FetchKind::Correspondence, c1, c2);
        },
        QKind::TextInput => {
            lemma_need_result_congr(q1, q2, FetchKind::TextInput, c1, c2);
        },
        QKind::SelectInput => {
            lemma_need_result_congr(q1, q2, FetchKind::SelectInput, c1, c2);
        },
        QKind::Unsupported => {
            assert(unsupported_result(q1) == unsupported_result(q2));
        },
    }
}


/// One question's full exchange reads the platform's grading feedback
/// only after submitting that very question, when the feedback is fixed
/// by the correct options alone.  So two runs from platform states with
/// the same test data and the same correct options — however different
/// their submission histories — produce the same outcome.
proof fn lemma_run_question_bisim(
    q1: QuestionV,
    q2: QuestionV,
    phase: PhaseV,
    st: QStepV,
    c1: Option<Seq<Seq<QuestionV>>>,
    c2: Option<Seq<Seq<QuestionV>>>,
    o1: OracleV,
    o2: OracleV,
)
    requires
        strip_question(q1) == strip_question(q2),
        strip_cache(c1) == strip_cache(c2),
        o1.base == o2.base,
        o1.correct == o2.correct,
        (st matches QStepV::Submit(s) ==> s.question_id == q1.id),
        (phase matches PhaseV::RadioSubmitted { idx } ==> 0 <= idx < q1.answers.len()),
        (phase matches PhaseV::RadioFetching { idx } ==> 0 <= idx < q1.answers.len()
            && o1.submitted.contains(q1.id) && o2.submitted.contains(q1.id)),
        (phase == (PhaseV::Fetching { kind: FetchKind::Checkbox }) ==> o1.submitted.contains(
            q1.id,
        ) && o2.submitted.contains(q1.id)),
        (phase == (PhaseV::Fetching { kind: FetchKind::Numeric }) ==> q1.answers.len() == 1),
    ensures
        ({
            let (r1, d1, p1) = run_question(q1, phase, st, c1, o1);
            let (r2, d2, p2) = run_question(q2, phase, st, c2, o2);
            r1 == r2 && strip_cache(d1) == strip_cache(d2) && p1.base == o1.base && p1.correct
                == o1.correct && p2.base == o2.base && p2.correct == o2.correct
        }),
    decreases (crate::machine::QuestionSolverV { q: q1, phase }).measure(), step_rank(st),
{
    lemma_strip_answers_pointwise(q1.answers, q2.answers);
    assert(q1.id == q2.id && q1.question == q2.question);
    match st {
        QStepV::Done(a) => {
            assert(run_question(q1, phase, st, c1, o1) == (
                Ok::<GeneratedAnswerV, ErrorV>(a),
                c1,
                o1,
            ));
            assert(run_question(q2, phase, st, c2, o2) == (
                Ok::<GeneratedAnswerV, ErrorV>(a),
                c2,
                o2,
            ));
        },
        QStepV::Fail(e) => {
            assert(run_question(q1, phase, st, c1, o1) == (
                Err::<GeneratedAnswerV, ErrorV>(e),
                c1,
                o1,
            ));
            assert(run_question(q2, phase, st, c2, o2) == (
                Err::<GeneratedAnswerV, ErrorV>(e),
                c2,
                o2,
            ));
        },
        QStepV::Submit(s) => {
            let o1b = oracle_submit(o1, s);
            let o2b = oracle_submit(o2, s);
            assert(o1b.submitted[o1.submitted.len() as int] == q1.id);
            assert(o1b.submitted.contains(q1.id));
            assert(o2b.submitted[o2.submitted.len() as int] == q1.id);
            assert(o2b.submitted.contains(q1.id));
            let (ph2, st2) = submitted_step(q1, phase);
            assert(submitted_step(q2, phase) == (ph2, st2));
            lemma_run_question_bisim(q1, q2, ph2, st2, None, None, o1b, o2b);
            assert(run_question(q1, phase, st, c1, o1) == run_question(q1, ph2, st2, None, o1b));
            assert(run_question(q2, phase, st, c2, o2) == run_question(q2, ph2, st2, None, o2b));
        },
        QStepV::Fetch => {
            let (snap1, o1b) = oracle_fetch(o1);
            let (snap2, o2b) = oracle_fetch(o2);
            let sorted1 = sorted_snapshot_view(snap1);
            let sorted2 = sorted_snapshot_view(snap2);
            lemma_strip_graded_snapshot(o1.base, o1.correct, o1.submitted);
            lemma_strip_graded_snapshot(o2.base, o2.correct, o2.submitted);
            lemma_sorted_snapshot_strip(snap1);
            lemma_sorted_snapshot_strip(snap2);
            assert(strip_snapshot(sorted1) == strip_snapshot(sorted2));
            let (ph2, st2) = snapshot_step(q1, phase, sorted1);
            match phase {
                PhaseV::RadioFetching { idx } => {
                    lemma_find_question_graded(o1.base, o1.correct, o1.submitted, q1.id);
                    lemma_find_question_graded(o2.base, o2.correct, o2.submitted, q1.id);
                    lemma_find_question_sorted(snap1, q1.id);
                    lemma_find_question_sorted(snap2, q1.id);
                    match find_question(o1.base, q1.id) {
                        None => {
                            assert(snapshot_step(q2, phase, sorted2) == (ph2, st2));
                        },
                        Some(qb) => {
                            let rq = sorted_question_view(
                                graded_question(
                                    qb,
                                    true,
                                    correct_ids(o1.correct, q1.id),
                                ),
                            );
                            assert(find_question(sorted1, q1.id) == Some(rq));
                            assert(find_question(sorted2, q1.id) == Some(rq));
                            assert(q1.answers[idx].id == q2.answers[idx].id);
                            assert(q1.answers[idx].value == q2.answers[idx].value);
                            assert(radio_result(q1, idx) == radio_result(q2, idx));
                            if idx + 1 < q1.answers.len() {
                                assert(q1.answers[idx + 1].id == q2.answers[idx + 1].id);
                                assert(radio_mapping(q1, idx + 1) == radio_mapping(q2, idx + 1));
                            }
                            assert(snapshot_step(q2, phase, sorted2) == (ph2, st2));
                        },
                    }
                    lemma_run_question_bisim(
                        q1,
                        q2,
                        ph2,
                        st2,
                        Some(sorted1),
                        Some(sorted2),
                        o1b,
                        o2b,
                    );
                },
                PhaseV::Fetching { kind } => {
                    lemma_find_question_graded(o1.base, o1.correct, o1.submitted, q1.id);
                    lemma_find_question_graded(o2.base, o2.correct, o2.submitted, q1.id);
                    lemma_find_question_sorted(snap1, q1.id);
                    lemma_find_question_sorted(snap2, q1.id);
                    match find_question(o1.base, q1.id) {
                        None => {
                            assert(snapshot_step(q2, phase, sorted2) == (ph2, st2));
                        },
                        Some(qb) => {
                            let corr = correct_ids(o1.correct, q1.id);
                            let rq1 = sorted_question_view(
                                graded_question(qb, o1.submitted.contains(q1.id), corr),
                            );
                            let rq2 = sorted_question_view(
                                graded_question(qb, o2.submitted.contains(q1.id), corr),
                            );
                            assert(find_question(sorted1, q1.id) == Some(rq1));
                            assert(find_question(sorted2, q1.id) == Some(rq2));
                            if kind == FetchKind::Checkbox {
                                assert(rq1 == rq2);
                            } else {
                                lemma_sorted_question_strip(
                                    graded_question(qb, o1.submitted.contains(q1.id), corr),
                                );
                                lemma_sorted_question_strip(
                                    graded_question(qb, o2.submitted.contains(q1.id), corr),
                                );
                                lemma_strip_graded_question(
                                    qb,
                                    o1.submitted.contains(q1.id),
                                    corr,
                                );
                                lemma_strip_graded_question(
                                    qb,
                                    o2.submitted.contains(q1.id),
                                    corr,
                                );
                                assert(strip_question(rq1) == strip_question(rq2));
                                lemma_kind_step_congr(q1, q2, kind, rq1, rq2);
                            }
                            assert(snapshot_step(q2, phase, sorted2) == (ph2, st2));
                        },
                    }
                    lemma_run_question_bisim(
                        q1,
                        q2,
                        ph2,
                        st2,
                        Some(sorted1),
                        Some(sorted2),
                        o1b,
                        o2b,
                    );
                },
                _ => {
                    assert(snapshot_step(q2, phase, sorted2) == (ph2, st2));
                    lemma_run_question_bisim(
                        q1,
                        q2,
                        ph2,
                        st2,
                        Some(sorted1),
                        Some(sorted2),
                        o1b,
                        o2b,
                    );
                },
            }
            assert(run_question(q1, phase, st, c1, o1) == run_question(
                q1,
                ph2,
                st2,
                Some(sorted1),
                o1b,
            ));
            assert(run_question(q2, phase, st, c2, o2) == run_question(
                q2,
                ph2,
                st2,
                Some(sorted2),
                o2b,
            ));
        },
    }
}


proof fn lemma_strip_plan_lens(p1: Seq<Seq<QuestionV>>, p2: Seq<Seq<QuestionV>>)
    requires
        strip_snapshot(p1) == strip_snapshot(p2),
    ensures
        p1.len() == p2.len(),
        forall|gi: int| 0 <= gi < p1.len() ==> (#[trigger] p1[gi]).len() == p2[gi].len(),
        forall|gi: int, qi: int|
            0 <= gi < p1.len() && 0 <= qi < p1[gi].len() ==> strip_question(
                #[trigger] p1[gi][qi],
            ) == strip_question(p2[gi][qi]),
{
    assert(strip_snapshot(p1).len() == p1.len());
    assert(strip_snapshot(p2).len() == p2.len());
    assert forall|gi: int| 0 <= gi < p1.len() implies (#[trigger] p1[gi]).len()
        == p2[gi].len() by {
        assert(strip_snapshot(p1)[gi] == strip_group(p1[gi]));
        assert(strip_snapshot(p2)[gi] == strip_group(p2[gi]));
        assert(strip_group(p1[gi]).len() == p1[gi].len());
        assert(strip_group(p2[gi]).len() == p2[gi].len());
    }
    assert forall|gi: int, qi: int|
        0 <= gi < p1.len() && 0 <= qi < p1[gi].len() implies strip_question(
        #[trigger] p1[gi][qi],
    ) == strip_question(p2[gi][qi]) by {
        assert(strip_snapshot(p1)[gi] == strip_group(p1[gi]));
        assert(strip_snapshot(p2)[gi] == strip_group(p2[gi]));
        assert(strip_group(p1[gi])[qi] == strip_question(p1[gi][qi]));
        assert(strip_group(p2[gi])[qi] == strip_question(p2[gi][qi]));
    }
}

proof fn lemma_normalize_congr(p1: Seq<Seq<QuestionV>>, p2: Seq<Seq<QuestionV>>, gi: int, qi: int)
    requires
        p1.len() == p2.len(),
        forall|g: int| 0 <= g < p1.len() ==> (#[trigger] p1[g]).len() == p2[g].len(),
    ensures
        normalize_pos(p1, gi, qi) == normalize_pos(p2, gi, qi),
    decreases p1.len() - gi,
{
    if 0 <= gi < p1.len() && qi >= p1[gi].len() {
        lemma_normalize_congr(p1, p2, gi + 1, 0);
    }
}

/// What the engine starts a question with: the first command names the
/// question itself, and the phases it can enter respect the machine's
/// own bounds.
proof fn lemma_begin_shape(q: QuestionV, c: Option<Seq<Seq<QuestionV>>>)
    ensures
        ({
            let (ph, d, st) = begin_step(q, c);
            (st matches QStepV::Submit(s) ==> s.question_id == q.id) && (ph
                matches PhaseV::RadioSubmitted { idx } ==> 0 <= idx < q.answers.len()) && !(ph
                is RadioFetching) && (ph != (PhaseV::Fetching { kind: FetchKind::Checkbox }))
                && (ph == (PhaseV::Fetching { kind: FetchKind::Numeric }) ==> q.answers.len()
                == 1)
        }),
{
}

/// A whole plan walk reads the platform's grading feedback only through
/// per-question runs, so it too depends only on the test data and the
/// correct options.
proof fn lemma_run_plan_bisim(
    p1: Seq<Seq<QuestionV>>,
    p2: Seq<Seq<QuestionV>>,
    gi: int,
    qi: int,
    t: Seq<char>,
    a: Seq<GeneratedAnswerV>,
    c1: Option<Seq<Seq<QuestionV>>>,
    c2: Option<Seq<Seq<QuestionV>>>,
    o1: OracleV,
    o2: OracleV,
)
    requires
        strip_snapshot(p1) == strip_snapshot(p2),
        strip_cache(c1) == strip_cache(c2),
        o1.base == o2.base,
        o1.correct == o2.correct,
    ensures
        ({
            let (t1r, a1r, d1, f1) = run_plan(p1, gi, qi, t, a, c1, o1);
            let (t2r, a2r, d2, f2) = run_plan(p2, gi, qi, t, a, c2, o2);
            t1r == t2r && a1r == a2r && f1.base == o1.base && f1.correct == o1.correct
                && f2.base == o2.base && f2.correct == o2.correct
        }),
    decreases p1.len() - gi, (if 0 <= gi < p1.len() {
        p1[gi].len() - qi
    } else {
        0
    }),
{
    lemma_strip_plan_lens(p1, p2);
    if !(0 <= gi < p1.len() && 0 <= qi < p1[gi].len()) {
        assert(run_plan(p1, gi, qi, t, a, c1, o1) == (t, a, c1, o1));
        assert(run_plan(p2, gi, qi, t, a, c2, o2) == (t, a, c2, o2));
    } else {
        let q1q = p1[gi][qi];
        let q2q = p2[gi][qi];
        assert(strip_question(q1q) == strip_question(q2q));
        assert(q1q.id == q2q.id && q1q.question == q2q.question);
        lemma_begin_congr(q1q, q2q, c1, c2);
        lemma_begin_shape(q1q, c1);
        let (ph, d1b, st) = begin_step(q1q, c1);
        assert(begin_step(q2q, c2) == (ph, c2, st));
        lemma_run_question_bisim(q1q, q2q, ph, st, c1, c2, o1, o2);
        let (res1, e1, f1b) = run_question(q1q, ph, st, c1, o1);
        let (res2, e2, f2b) = run_question(q2q, ph, st, c2, o2);
        assert(run_question_from(q1q, c1, o1) == (res1, e1, f1b));
        assert(run_question_from(q2q, c2, o2) == (res2, e2, f2b));
        assert(res1 == res2);
        let ans = (match res1 {
            Ok(av) => av,
            Err(ev) => error_result(q1q, ev),
        });
        assert((match res2 {
            Ok(av) => av,
            Err(ev) => error_result(q2q, ev),
        }) == ans);
        let t2 = t + line_view(gi, qi, ans.human);
        let a2 = if contains_answer(a, ans) {
            a
        } else {
            a.push(ans)
        };
        let pos = normalize_pos(p1, gi, qi + 1);
        lemma_normalize_congr(p1, p2, gi, qi + 1);
        if qi + 1 >= p1[gi].len() {
            lemma_normalize_pos_bounds(p1, gi + 1, 0);
        }
        lemma_run_plan_bisim(p1, p2, pos.0, pos.1, t2, a2, e1, e2, f1b, f2b);
        assert(run_plan(p1, gi, qi, t, a, c1, o1) == run_plan(p1, pos.0, pos.1, t2, a2, e1, f1b));
        assert(run_plan(p2, gi, qi, t, a, c2, o2) == run_plan(p2, pos.0, pos.1, t2, a2, e2, f2b));
    }
}

/// A whole session's transcript and answer set depend only on the test
/// the platform serves and on which options it holds correct — not on
/// any submission history the platform has already accumulated.
pub proof fn lemma_solve_depends_on_test_only(o1: OracleV, o2: OracleV)
    requires
        o1.base == o2.base,
        o1.correct == o2.correct,
    ensures
        solve_run(o1).0 == solve_run(o2).0,
        solve_run(o1).1 == solve_run(o2).1,
{
    let (snap1, o1b) = oracle_fetch(o1);
    let (snap2, o2b) = oracle_fetch(o2);
    lemma_strip_graded_snapshot(o1.base, o1.correct, o1.submitted);
    lemma_strip_graded_snapshot(o2.base, o2.correct, o2.submitted);
    lemma_sorted_snapshot_strip(snap1);
    lemma_sorted_snapshot_strip(snap2);
    let sorted1 = sorted_snapshot_view(snap1);
    let sorted2 = sorted_snapshot_view(snap2);
    assert(strip_snapshot(sorted1) == strip_snapshot(sorted2));
    lemma_strip_plan_lens(sorted1, sorted2);
    lemma_normalize_congr(sorted1, sorted2, 0, 0);
    let pos = normalize_pos(sorted1, 0, 0);
    lemma_run_plan_bisim(
        sorted1,
        sorted2,
        pos.0,
        pos.1,
        Seq::<char>::empty(),
        Seq::<GeneratedAnswerV>::empty(),
        Some(sorted1),
        Some(sorted2),
        o1b,
        o2b,
    );
}

/// A session never changes the test the platform serves, nor which
/// options it holds correct: it only adds submission history.
pub proof fn lemma_solve_preserves_test(o: OracleV)
    ensures
        solve_run(o).2.base == o.base,
        solve_run(o).2.correct == o.correct,
{
    let (snap, ob) = oracle_fetch(o);
    let sorted = sorted_snapshot_view(snap);
    let pos = normalize_pos(sorted, 0, 0);
    lemma_run_plan_bisim(
        sorted,
        sorted,
        pos.0,
        pos.1,
        Seq::<char>::empty(),
        Seq::<GeneratedAnswerV>::empty(),
        Some(sorted),
        Some(sorted),
        ob,
        ob,
    );
}

/// Running the engine a second time, right after a first full run and
/// with all the submission history that run left on the platform, yields
/// a byte-identical transcript and a byte-identical answer set.
pub proof fn lemma_second_run_identical(o: OracleV)
    ensures
        solve_run(solve_run(o).2).0 == solve_run(o).0,
        solve_run(solve_run(o).2).1 == solve_run(o).1,
{
    lemma_solve_preserves_test(o);
    lemma_solve_depends_on_test_only(solve_run(o).2, o);
}


/// For every multi-choice question, the corrected submission assembled
/// from the platform's grading of the all-options probe holds exactly
/// the options the platform flags correct — never a superset, never a
/// subset.
pub proof fn lemma_checkbox_resubmits_flagged_exactly(qb: QuestionV, corr: Seq<u32>)
    ensures
        ({
            let rq = graded_question(qb, true, corr);
            forall|p: (u32, AnswerValueV)| #[trigger] cb_mapping(
                rq.answers,
                rq.answers.len() as int,
            ).contains(p) <==> (exists|i: int|
                0 <= i < qb.answers.len() && corr.contains((#[trigger] qb.answers[i]).id) && p
                    == (qb.answers[i].id, AnswerValueV::Text(decimal(qb.answers[i].id as nat))))
        }),
{
    let rq = graded_question(qb, true, corr);
    let n = rq.answers.len() as int;
    assert(rq.answers.len() == qb.answers.len());
    lemma_cb_mapping_exact(rq.answers, n);
    assert forall|i: int|
        0 <= i < qb.answers.len() implies (checkbox_correct(#[trigger] rq.answers[i])
        == corr.contains(qb.answers[i].id)) && rq.answers[i].id == qb.answers[i].id by {
        assert(rq.answers[i] == graded_answer(qb.answers[i], true, corr));
    }
    assert forall|p: (u32, AnswerValueV)| #[trigger] cb_mapping(rq.answers, n).contains(
        p,
    ) implies (exists|i: int|
        0 <= i < qb.answers.len() && corr.contains((#[trigger] qb.answers[i]).id) && p == (
            qb.answers[i].id,
            AnswerValueV::Text(decimal(qb.answers[i].id as nat)),
        )) by {
        let i = choose|i: int|
            0 <= i < n && checkbox_correct(#[trigger] rq.answers[i]) && p == (
                rq.answers[i].id,
                AnswerValueV::Text(decimal(rq.answers[i].id as nat)),
            );
        assert(corr.contains(qb.answers[i].id));
        assert(p == (qb.answers[i].id, AnswerValueV::Text(decimal(qb.answers[i].id as nat))));
    }
    assert forall|p: (u32, AnswerValueV)|
        (exists|i: int|
            0 <= i < qb.answers.len() && corr.contains((#[trigger] qb.answers[i]).id) && p == (
                qb.answers[i].id,
                AnswerValueV::Text(decimal(qb.answers[i].id as nat)),
            )) implies #[trigger] cb_mapping(rq.answers, n).contains(p) by {
        let i = choose|i: int|
            0 <= i < qb.answers.len() && corr.contains((#[trigger] qb.answers[i]).id) && p == (
                qb.answers[i].id,
                AnswerValueV::Text(decimal(qb.answers[i].id as nat)),
            );
        assert(checkbox_correct(rq.answers[i]));
        assert(p == (rq.answers[i].id, AnswerValueV::Text(decimal(rq.answers[i].id as nat))));
    }
}

} // verus!
