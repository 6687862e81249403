use vstd::prelude::*;
use crate::answers::error_result;
use crate::cache::TestCache;
use crate::error::ErrorV;
use crate::error::MatetechError;
use crate::machine::PhaseV;
use crate::machine::QCommand;
use crate::machine::QStepV;
use crate::machine::QuestionSolver;
use crate::machine::QuestionSolverV;
use crate::machine::begin_step;
use crate::machine::snapshot_step;
use crate::machine::submitted_step;
use crate::model::GeneratedAnswer;
use crate::model::GeneratedAnswerV;
use crate::model::Question;
use crate::model::QuestionV;
use crate::oracle::Oracle;
use crate::oracle::OracleV;
use crate::oracle::oracle_fetch;
use crate::oracle::oracle_submit;
use crate::solver::Solver;
use crate::solver::answers_list_view;
use crate::solver::contains_answer;
use crate::solver::lemma_normalize_pos_bounds;
use crate::solver::line_view;
use crate::solver::normalize_pos;
use crate::sorting::sorted_snapshot_view;

verus! {

/// Whether a command still asks for work (as opposed to ending the
/// question).
pub open spec fn step_rank(st: QStepV) -> int {
    match st {
        QStepV::Done(_) => 0,
        QStepV::Fail(_) => 0,
        _ => 1,
    }
}

/// The complete exchange one question has with the platform model,
/// played out to its end: every command the engine emits is answered by
/// the model, and the run returns the question's outcome together with
/// the session cache and the model as they stand afterwards.
pub open spec fn run_question(
    q: QuestionV,
    phase: PhaseV,
    st: QStepV,
    cache: Option<Seq<Seq<QuestionV>>>,
    o: OracleV,
) -> (Result<GeneratedAnswerV, ErrorV>, Option<Seq<Seq<QuestionV>>>, OracleV)
    decreases (QuestionSolverV { q, phase }).measure(), step_rank(st),
{
    match st {
        QStepV::Done(a) => (Ok(a), cache, o),
        QStepV::Fail(e) => (Err(e), cache, o),
        QStepV::Submit(s) => {
            let o2 = oracle_submit(o, s);
            let (ph2, st2) = submitted_step(q, phase);
            run_question(q, ph2, st2, None, o2)
        },
        QStepV::Fetch => {
            let (snap, o2) = oracle_fetch(o);
            let sorted = sorted_snapshot_view(snap);
            let (ph2, st2) = snapshot_step(q, phase, sorted);
            run_question(q, ph2, st2, Some(sorted), o2)
        },
    }
}

/// A question's full run against the platform model, from its first
/// command on.
pub open spec fn run_question_from(
    q: QuestionV,
    cache: Option<Seq<Seq<QuestionV>>>,
    o: OracleV,
) -> (Result<GeneratedAnswerV, ErrorV>, Option<Seq<Seq<QuestionV>>>, OracleV) {
    let (ph, c2, st) = begin_step(q, cache);
    run_question(q, ph, st, c2, o)
}

/// Solves one question against the platform model, performing each
/// command the engine emits, exactly as [`run_question_from`] plays it
/// out.
pub fn solve_question_with(oracle: &mut Oracle, cache: &mut TestCache, q: &Question) -> (r:
    Result<GeneratedAnswer, MatetechError>)
    ensures
        ({
            let (res, c2, o2) = run_question_from(q@, old(cache)@, old(oracle)@);
            final(cache)@ == c2 && final(oracle)@ == o2 && (match (r, res) {
                (Ok(a), Ok(av)) => a@ == av,
                (Err(e), Err(ev)) => e@ == ev,
                _ => false,
            })
        }),
{
    let ghost goal = run_question_from(q@, old(cache)@, old(oracle)@);
    let (mut qs, mut cmd) = QuestionSolver::begin(q.clone(), cache);
    #[verifier::loop_isolation(false)]
    loop
        invariant
            qs@.q == q@,
            qs@.wf(),
            cmd@ is Submit ==> qs@.expects_submitted(),
            cmd@ is Fetch ==> qs@.expects_snapshot(),
            run_question(qs@.q, qs@.phase, cmd@, cache@, oracle@) == goal,
        decreases qs@.measure(),
    {
        cmd = match cmd {
            QCommand::Submit(s) => {
                oracle.submit(s);
                qs.on_submitted(cache)
            },
            QCommand::Fetch => {
                let raw = oracle.fetch();
                qs.on_snapshot(cache, &raw)
            },
            QCommand::Done(a) => {
                proof {
                    assert(cmd@ == QStepV::Done(a@));
                    assert(run_question(qs@.q, qs@.phase, QStepV::Done(a@), cache@, oracle@)
                        == (Ok::<GeneratedAnswerV, ErrorV>(a@), cache@, oracle@));
                    assert((Ok::<GeneratedAnswerV, ErrorV>(a@), cache@, oracle@) == goal);
                }
                return Ok(a);
            },
            QCommand::Fail(e) => {
                proof {
                    assert(cmd@ == QStepV::Fail(e@));
                    assert(run_question(qs@.q, qs@.phase, QStepV::Fail(e@), cache@, oracle@)
                        == (Err::<GeneratedAnswerV, ErrorV>(e@), cache@, oracle@));
                    assert((Err::<GeneratedAnswerV, ErrorV>(e@), cache@, oracle@) == goal);
                }
                return Err(e);
            },
        };
    }
}

/// The rest of a session played out against the platform model from the
/// given position: each remaining question runs to its end, failures
/// fold into placeholders, and transcript and answer set grow as the
/// orchestrator records them.
pub open spec fn run_plan(
    plan: Seq<Seq<QuestionV>>,
    gi: int,
    qi: int,
    transcript: Seq<char>,
    answers: Seq<GeneratedAnswerV>,
    cache: Option<Seq<Seq<QuestionV>>>,
    o: OracleV,
) -> (Seq<char>, Seq<GeneratedAnswerV>, Option<Seq<Seq<QuestionV>>>, OracleV)
    decreases plan.len() - gi, (if 0 <= gi < plan.len() {
        plan[gi].len() - qi
    } else {
        0
    }),
    via run_plan_dec
{
    if !(0 <= gi < plan.len() && 0 <= qi < plan[gi].len()) {
        (transcript, answers, cache, o)
    } else {
        let q = plan[gi][qi];
        let (res, c2, o2) = run_question_from(q, cache, o);
        let ans = (match res {
            Ok(a) => a,
            Err(e) => error_result(q, e),
        });
        let t2 = transcript + line_view(gi, qi, ans.human);
        let a2 = if contains_answer(answers, ans) {
            answers
        } else {
            answers.push(ans)
        };
        let pos = normalize_pos(plan, gi, qi + 1);
        run_plan(plan, pos.0, pos.1, t2, a2, c2, o2)
    }
}

#[via_fn]
proof fn run_plan_dec(
    plan: Seq<Seq<QuestionV>>,
    gi: int,
    qi: int,
    transcript: Seq<char>,
    answers: Seq<GeneratedAnswerV>,
    cache: Option<Seq<Seq<QuestionV>>>,
    o: OracleV,
) {
    if 0 <= gi < plan.len() && 0 <= qi < plan[gi].len() {
        if qi + 1 >= plan[gi].len() {
            lemma_normalize_pos_bounds(plan, gi + 1, 0);
        }
    }
}

/// A whole session against the platform model: one fetch for the plan,
/// then every question in order.
pub open spec fn solve_run(o: OracleV) -> (Seq<char>, Seq<GeneratedAnswerV>, OracleV) {
    let (snap, o1) = oracle_fetch(o);
    let sorted = sorted_snapshot_view(snap);
    let pos = normalize_pos(sorted, 0, 0);
    let (t, a, c2, o2) = run_plan(
        sorted,
        pos.0,
        pos.1,
        Seq::<char>::empty(),
        Seq::<GeneratedAnswerV>::empty(),
        Some(sorted),
        o1,
    );
    (t, a, o2)
}

impl Solver {
    /// Runs the whole session against the platform model: fetches the
    /// snapshot once for the plan, solves every question in order —
    /// never letting one question's failure stop the rest — and returns
    /// the transcript and the deduplicated set of discovered answers.
    pub fn solve(&mut self, oracle: &mut Oracle) -> (r: (String, Vec<GeneratedAnswer>))
        requires
            old(self)@.transcript == Seq::<char>::empty(),
            old(self)@.answers == Seq::<GeneratedAnswerV>::empty(),
        ensures
            r.0@ == solve_run(old(oracle)@).0,
            answers_list_view(r.1@) == solve_run(old(oracle)@).1,
            final(oracle)@ == solve_run(old(oracle)@).2,
            final(self)@.done(),
    {
        let raw = oracle.fetch();
        let mut cache = TestCache::new();
        cache.install(&raw);
        self.install_plan(&raw);
        let ghost goal = run_plan(
            sorted_snapshot_view(raw@),
            normalize_pos(sorted_snapshot_view(raw@), 0, 0).0,
            normalize_pos(sorted_snapshot_view(raw@), 0, 0).1,
            Seq::<char>::empty(),
            Seq::<GeneratedAnswerV>::empty(),
            Some(sorted_snapshot_view(raw@)),
            oracle@,
        );
        #[verifier::loop_isolation(false)]
        while !self.is_done()
            invariant
                self@.wf(),
                run_plan(
                    self@.plan,
                    self@.gi,
                    self@.qi,
                    self@.transcript,
                    self@.answers,
                    cache@,
                    oracle@,
                ) == goal,
            decreases self@.plan.len() - self@.gi, (if 0 <= self@.gi < self@.plan.len() {
                self@.plan[self@.gi].len() - self@.qi
            } else {
                0
            }),
        {
            let ghost g0 = self@.gi;
            let ghost q0 = self@.qi;
            let ghost plan0 = self@.plan;
            let ghost t0 = self@.transcript;
            let ghost a0 = self@.answers;
            let ghost c0 = cache@;
            let ghost o0 = oracle@;
            let q = match self.next_question() {
                Some(q) => q,
                None => vstd::pervasive::unreached(),
            };
            proof {
                if q0 >= plan0[g0].len() {
                    lemma_normalize_pos_bounds(plan0, g0 + 1, 0);
                    assert(false);
                }
            }
            let outcome = solve_question_with(oracle, &mut cache, &q);
            let ghost spec_ans = (match &outcome {
                Ok(a) => a@,
                Err(e) => error_result(q@, e@),
            });
            proof {
                let (res, c2, o2) = run_question_from(q@, c0, o0);
                assert(cache@ == c2 && oracle@ == o2);
                assert(spec_ans == (match res {
                    Ok(av) => av,
                    Err(ev) => error_result(q@, ev),
                }));
                assert(q@ == plan0[g0][q0]);
            }
            self.record(&q, outcome);
            proof {
                if q0 + 1 >= plan0[g0].len() {
                    lemma_normalize_pos_bounds(plan0, g0 + 1, 0);
                }
                let qs = plan0[g0][q0];
                let (res, c2, o2) = run_question_from(qs, c0, o0);
                let ansv = (match res {
                    Ok(a) => a,
                    Err(e) => error_result(qs, e),
                });
                let t2 = t0 + line_view(g0, q0, ansv.human);
                let a2 = if contains_answer(a0, ansv) {
                    a0
                } else {
                    a0.push(ansv)
                };
                let pos = normalize_pos(plan0, g0, q0 + 1);
                assert(run_plan(plan0, g0, q0, t0, a0, c0, o0) == run_plan(
                    plan0,
                    pos.0,
                    pos.1,
                    t2,
                    a2,
                    c2,
                    o2,
                ));
                assert(run_plan(plan0, g0, q0, t0, a0, c0, o0) == run_plan(
                    self@.plan,
                    self@.gi,
                    self@.qi,
                    self@.transcript,
                    self@.answers,
                    cache@,
                    oracle@,
                ));
            }
        }
        proof {
            assert(run_plan(
                self@.plan,
                self@.gi,
                self@.qi,
                self@.transcript,
                self@.answers,
                cache@,
                oracle@,
            ) == (self@.transcript, self@.answers, cache@, oracle@));
        }
        self.results()
    }
}

} // verus!
