use vstd::prelude::*;
use vstd::string::StringExecFns;
use crate::answers::error_result;
use crate::error::MatetechError;
use crate::model::GeneratedAnswer;
use crate::model::GeneratedAnswerV;
use crate::model::Question;
use crate::model::QuestionV;
use crate::model::TestSnapshot;
use crate::numstr::decimal;
use crate::numstr::u64_to_string;
use crate::sorting::sorted_snapshot;
use crate::sorting::sorted_snapshot_view;

verus! {

/// One transcript line: `<group>-<index>: <answer>`, with 1-based group
/// and index numbers, closed by a line break.
pub open spec fn line_view(gi: int, qi: int, human: Seq<char>) -> Seq<char> {
    decimal((gi + 1) as nat) + "-"@ + decimal((qi + 1) as nat) + ": "@ + human + "\n"@
}

/// Whether the collected set already holds this answer, by full field
/// identity.
pub open spec fn contains_answer(s: Seq<GeneratedAnswerV>, a: GeneratedAnswerV) -> bool {
    exists|i: int| 0 <= i < s.len() && s[i] == a
}

pub open spec fn answers_list_view(v: Seq<GeneratedAnswer>) -> Seq<GeneratedAnswerV> {
    v.map_values(|a: GeneratedAnswer| a@)
}

/// The first position at or after `(gi, qi)` that actually holds a
/// question, skipping empty groups; `(plan.len(), 0)` when none is left.
pub open spec fn normalize_pos(plan: Seq<Seq<QuestionV>>, gi: int, qi: int) -> (int, int)
    decreases plan.len() - gi,
{
    if gi < 0 || gi >= plan.len() {
        (plan.len() as int, 0)
    } else if qi < plan[gi].len() {
        (gi, qi)
    } else {
        normalize_pos(plan, gi + 1, 0)
    }
}

/// A normalized position is in range, and points at a real question
/// unless the plan is exhausted.
pub proof fn lemma_normalize_pos_bounds(plan: Seq<Seq<QuestionV>>, gi: int, qi: int)
    requires
        0 <= gi <= plan.len(),
        0 <= qi,
    ensures
        ({
            let (g2, q2) = normalize_pos(plan, gi, qi);
            gi <= g2 && g2 <= plan.len() && (g2 < plan.len() ==> 0 <= q2 < plan[g2].len())
        }),
    decreases plan.len() - gi,
{
    if gi < plan.len() && qi >= plan[gi].len() {
        lemma_normalize_pos_bounds(plan, gi + 1, 0);
    }
}

/// Mathematical image of a [`Solver`].
#[verifier::ext_equal]
pub ghost struct SolverV {
    pub attempt_id: u32,
    pub plan: Seq<Seq<QuestionV>>,
    pub gi: int,
    pub qi: int,
    pub transcript: Seq<char>,
    pub answers: Seq<GeneratedAnswerV>,
}

impl SolverV {
    /// The iteration position is in range and never rests on an empty
    /// group.
    pub open spec fn wf(self) -> bool {
        0 <= self.gi && 0 <= self.qi && (self.gi, self.qi) == normalize_pos(
            self.plan,
            self.gi,
            self.qi,
        )
    }

    /// All questions of the plan have been visited.
    pub open spec fn done(self) -> bool {
        self.gi >= self.plan.len()
    }
}

/// The session orchestrator: walks the question plan in order, folds
/// each question's outcome into a transcript line and a deduplicated
/// answer set, and never lets one question's failure stop the rest.  The
/// snapshot cache of the session lives beside it, shared with the
/// per-question engine by whoever drives the exchange.
pub struct Solver {
    attempt_id: u32,
    plan: Vec<Vec<Question>>,
    gi: usize,
    qi: usize,
    transcript: String,
    answers: Vec<GeneratedAnswer>,
}

impl View for Solver {
    type V = SolverV;

    closed spec fn view(&self) -> SolverV {
        SolverV {
            attempt_id: self.attempt_id,
            plan: crate::model::snapshot_view(self.plan@),
            gi: self.gi as int,
            qi: self.qi as int,
            transcript: self.transcript@,
            answers: answers_list_view(self.answers@),
        }
    }
}

fn answers_contains(v: &Vec<GeneratedAnswer>, a: &GeneratedAnswer) -> (r: bool)
    ensures
        r == contains_answer(answers_list_view(v@), a@),
{
    let mut i: usize = 0;
    let n = v.len();
    while i < n
        invariant
            i <= n,
            n == v@.len(),
            forall|j: int| 0 <= j < i ==> answers_list_view(v@)[j] != a@,
        decreases n - i,
    {
        proof {
            assert(answers_list_view(v@)[i as int] == v@[i as int]@);
        }
        if &v[i] == a {
            return true;
        }
        i += 1;
    }
    false
}

impl Solver {
    /// A fresh session for one attempt: no plan yet, nothing recorded.
    pub fn new(attempt_id: u32) -> (r: Solver)
        ensures
            r@ == (SolverV {
                attempt_id,
                plan: Seq::<Seq<QuestionV>>::empty(),
                gi: 0,
                qi: 0,
                transcript: Seq::<char>::empty(),
                answers: Seq::<GeneratedAnswerV>::empty(),
            }),
            r@.wf(),
    {
        let r = Solver {
            attempt_id,
            plan: Vec::new(),
            gi: 0,
            qi: 0,
            transcript: String::new(),
            answers: Vec::new(),
        };
        proof {
            assert(crate::model::snapshot_view(r.plan@) =~= Seq::<Seq<QuestionV>>::empty());
            assert(answers_list_view(r.answers@) =~= Seq::<GeneratedAnswerV>::empty());
        }
        r
    }

    /// The attempt this session works on.
    pub fn attempt_id(&self) -> (r: u32)
        ensures
            r == self@.attempt_id,
    {
        self.attempt_id
    }

    /// Installs the attempt's first fetched snapshot as the question
    /// plan, ordered, starting at the first question.  The caller caches
    /// the same snapshot beside it.
    pub fn install_plan(&mut self, raw: &TestSnapshot)
        ensures
            final(self)@ == (SolverV {
                plan: sorted_snapshot_view(raw@),
                gi: normalize_pos(sorted_snapshot_view(raw@), 0, 0).0,
                qi: normalize_pos(sorted_snapshot_view(raw@), 0, 0).1,
                ..old(self)@
            }),
            final(self)@.wf(),
    {
        let sorted = sorted_snapshot(raw);
        self.plan = sorted.questions;
        self.gi = 0;
        self.qi = 0;
        self.skip_empty_groups();
    }

    fn skip_empty_groups(&mut self)
        requires
            old(self)@.qi == 0,
            0 <= old(self)@.gi <= old(self)@.plan.len(),
        ensures
            final(self)@ == (SolverV {
                gi: normalize_pos(old(self)@.plan, old(self)@.gi, 0).0,
                qi: normalize_pos(old(self)@.plan, old(self)@.gi, 0).1,
                ..old(self)@
            }),
            final(self)@.wf(),
    {
        while self.gi < self.plan.len() && self.plan[self.gi].len() == 0
            invariant
                self@.qi == 0,
                self@.gi <= self@.plan.len(),
                self@ == (SolverV { gi: self@.gi, ..old(self)@ }),
                normalize_pos(self@.plan, self@.gi, 0) == normalize_pos(
                    old(self)@.plan,
                    old(self)@.gi,
                    0,
                ),
            decreases self@.plan.len() - self@.gi,
        {
            proof {
                assert(self@.plan[self@.gi] == crate::model::group_view(
                    self.plan@[self@.gi as int]@,
                ));
            }
            self.gi += 1;
        }
        proof {
            if self.gi < self.plan.len() {
                assert(self@.plan[self@.gi] == crate::model::group_view(
                    self.plan@[self@.gi as int]@,
                ));
            }
        }
    }

    /// Whether every question of the plan has been visited.
    pub fn is_done(&self) -> (r: bool)
        ensures
            r == self@.done(),
    {
        self.gi >= self.plan.len()
    }

    /// The question the session is standing on, or nothing when the plan
    /// is exhausted.
    pub fn next_question(&self) -> (r: Option<Question>)
        requires
            self@.wf(),
        ensures
            (match r {
                Some(q) => !self@.done() && q@ == self@.plan[self@.gi][self@.qi],
                None => self@.done(),
            }),
    {
        if self.gi < self.plan.len() {
            proof {
                assert(self@.plan[self@.gi as int] == crate::model::group_view(
                    self.plan@[self@.gi as int]@,
                ));
                if self@.qi >= self@.plan[self@.gi as int].len() {
                    lemma_normalize_pos_bounds(self@.plan, self@.gi + 1, 0);
                }
                assert(self@.qi < self@.plan[self@.gi as int].len());
                assert(self@.plan[self@.gi as int][self@.qi as int]
                    == self.plan@[self@.gi as int]@[self@.qi as int]@);
            }
            Some(self.plan[self.gi][self.qi].clone())
        } else {
            None
        }
    }

    /// Folds one question's outcome into the session: a failure becomes
    /// the question's error placeholder, the answer's reader form goes on
    /// the transcript under its `<group>-<index>` label, the answer joins
    /// the set unless an identical one is already there, and the session
    /// steps to the next question.
    pub fn record(&mut self, q: &Question, outcome: Result<GeneratedAnswer, MatetechError>)
        requires
            old(self)@.wf(),
            !old(self)@.done(),
        ensures
            final(self)@.wf(),
            ({
                let ans = (match outcome {
                    Ok(a) => a@,
                    Err(e) => error_result(q@, e@),
                });
                let pos = normalize_pos(old(self)@.plan, old(self)@.gi, old(self)@.qi + 1);
                final(self)@ == (SolverV {
                    gi: pos.0,
                    qi: pos.1,
                    transcript: old(self)@.transcript + line_view(
                        old(self)@.gi,
                        old(self)@.qi,
                        ans.human,
                    ),
                    answers: if contains_answer(old(self)@.answers, ans) {
                        old(self)@.answers
                    } else {
                        old(self)@.answers.push(ans)
                    },
                    ..old(self)@
                })
            }),
    {
        let ghost spec_ans = (match &outcome {
            Ok(a) => a@,
            Err(e) => error_result(q@, e@),
        });
        let ghost old_gi = self@.gi;
        let ghost old_qi = self@.qi;
        let gn = self.plan.len();
        proof {
            assert(self@.plan[old_gi] == crate::model::group_view(self.plan@[old_gi]@));
            if old_qi >= self@.plan[old_gi].len() {
                lemma_normalize_pos_bounds(self@.plan, old_gi + 1, 0);
                assert(false);
            }
        }
        let gl = self.plan[self.gi].len();
        let ans = match outcome {
            Ok(a) => a,
            Err(e) => crate::answers::error_answer(q, &e),
        };
        proof {
            assert(ans@ == spec_ans);
        }
        self.transcript.append(u64_to_string((self.gi as u64) + 1).as_str());
        self.transcript.append("-");
        self.transcript.append(u64_to_string((self.qi as u64) + 1).as_str());
        self.transcript.append(": ");
        self.transcript.append(ans.human.as_str());
        self.transcript.append("\n");
        proof {
            assert(self.transcript@ =~= old(self)@.transcript + line_view(
                old_gi,
                old_qi,
                spec_ans.human,
            ));
        }
        let ghost prev = answers_list_view(self.answers@);
        if !answers_contains(&self.answers, &ans) {
            let ghost av = ans@;
            self.answers.push(ans);
            proof {
                assert(answers_list_view(self.answers@) =~= prev.push(av));
            }
        }
        self.qi += 1;
        if self.qi >= gl {
            self.gi += 1;
            self.qi = 0;
            self.skip_empty_groups();
        }
        proof {
            assert((self@.gi, self@.qi) == normalize_pos(old(self)@.plan, old_gi, old_qi + 1));
            assert(self@ =~= (SolverV {
                gi: normalize_pos(old(self)@.plan, old_gi, old_qi + 1).0,
                qi: normalize_pos(old(self)@.plan, old_gi, old_qi + 1).1,
                transcript: old(self)@.transcript + line_view(old_gi, old_qi, spec_ans.human),
                answers: if contains_answer(old(self)@.answers, spec_ans) {
                    old(self)@.answers
                } else {
                    old(self)@.answers.push(spec_ans)
                },
                ..old(self)@
            }));
        }
    }

    /// The session's transcript and its deduplicated answer set, as they
    /// stand.
    pub fn results(&self) -> (r: (String, Vec<GeneratedAnswer>))
        ensures
            r.0@ == self@.transcript,
            answers_list_view(r.1@) == self@.answers,
    {
        let t = self.transcript.clone();
        let mut v: Vec<GeneratedAnswer> = Vec::new();
        let mut i: usize = 0;
        let n = self.answers.len();
        while i < n
            invariant
                i <= n,
                n == self.answers@.len(),
                v@.len() == i,
                forall|j: int| 0 <= j < i ==> #[trigger] v@[j]@ == self.answers@[j]@,
            decreases n - i,
        {
            v.push(self.answers[i].clone());
            i += 1;
        }
        proof {
            assert(answers_list_view(v@) =~= answers_list_view(self.answers@));
        }
        (t, v)
    }
}

} // verus!
