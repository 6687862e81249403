use vstd::prelude::*;
use crate::model::Answer;
use crate::model::AnswerV;
use crate::model::Question;
use crate::model::QuestionV;
use crate::model::Submission;
use crate::model::SubmissionV;
use crate::model::TestSnapshot;
use crate::model::answers_view;
use crate::model::group_view;

verus! {

/// The correct option ids recorded for the given question: the first
/// entry that names it, or none at all.
pub open spec fn correct_ids(c: Seq<(u32, Seq<u32>)>, qid: u32) -> Seq<u32>
    decreases c.len(),
{
    if c.len() == 0 {
        Seq::<u32>::empty()
    } else if c[0].0 == qid {
        c[0].1
    } else {
        correct_ids(c.drop_first(), qid)
    }
}

/// How the platform model grades one option: once its question has seen
/// any submission, the flag says whether the option is among the correct
/// ones; before that, no feedback exists.
pub open spec fn graded_answer(a: AnswerV, submitted_q: bool, corr: Seq<u32>) -> AnswerV {
    AnswerV {
        user_correct: if submitted_q {
            Some(corr.contains(a.id))
        } else {
            None
        },
        ..a
    }
}

/// One question as the platform model serves it.
pub open spec fn graded_question(q: QuestionV, submitted_q: bool, corr: Seq<u32>) -> QuestionV {
    QuestionV { answers: q.answers.map_values(|a: AnswerV| graded_answer(a, submitted_q, corr)), ..q }
}

/// The whole snapshot as the platform model serves it: everything as in
/// the base data, with each option's correctness flag filled in for the
/// questions that have been submitted at least once.
pub open spec fn graded_snapshot(
    base: Seq<Seq<QuestionV>>,
    correct: Seq<(u32, Seq<u32>)>,
    submitted: Seq<u32>,
) -> Seq<Seq<QuestionV>> {
    base.map_values(
        |g: Seq<QuestionV>|
            g.map_values(
                |q: QuestionV|
                    graded_question(q, submitted.contains(q.id), correct_ids(correct, q.id)),
            ),
    )
}

pub open spec fn correct_view(c: Seq<(u32, Vec<u32>)>) -> Seq<(u32, Seq<u32>)> {
    c.map_values(|p: (u32, Vec<u32>)| (p.0, p.1@))
}

pub open spec fn submissions_view(s: Seq<Submission>) -> Seq<SubmissionV> {
    s.map_values(|x: Submission| x@)
}

/// A saturating step of the fetch counter.
pub open spec fn bump(n: u64) -> u64 {
    if n == u64::MAX {
        n
    } else {
        (n + 1) as u64
    }
}

/// A deterministic in-memory stand-in for the quiz platform: it serves
/// one fixed test, records every submission, and grades exactly the
/// options listed as correct.  The engine runs against it for testing and
/// for the laws proved of whole probing runs.
pub struct Oracle {
    /// The test served on every fetch, graded per [`graded_snapshot`].
    pub base: TestSnapshot,
    /// For each question id, the option ids that are truly correct.
    pub correct: Vec<(u32, Vec<u32>)>,
    /// The question ids that have received at least one submission.
    pub submitted: Vec<u32>,
    /// Every submission, in the order it was posted.
    pub submissions: Vec<Submission>,
    /// How many snapshot fetches have been served.
    pub fetch_count: u64,
}

/// Mathematical image of an [`Oracle`].
#[verifier::ext_equal]
pub ghost struct OracleV {
    pub base: Seq<Seq<QuestionV>>,
    pub correct: Seq<(u32, Seq<u32>)>,
    pub submitted: Seq<u32>,
    pub submissions: Seq<SubmissionV>,
    pub fetch_count: u64,
}

impl View for Oracle {
    type V = OracleV;

    open spec fn view(&self) -> OracleV {
        OracleV {
            base: self.base@,
            correct: correct_view(self.correct@),
            submitted: self.submitted@,
            submissions: submissions_view(self.submissions@),
            fetch_count: self.fetch_count,
        }
    }
}

/// What [`Oracle::submit`] does to the model's state.
pub open spec fn oracle_submit(o: OracleV, s: SubmissionV) -> OracleV {
    OracleV {
        submitted: o.submitted.push(s.question_id),
        submissions: o.submissions.push(s),
        ..o
    }
}

/// What [`Oracle::fetch`] serves, and what it does to the model's state.
pub open spec fn oracle_fetch(o: OracleV) -> (Seq<Seq<QuestionV>>, OracleV) {
    (graded_snapshot(o.base, o.correct, o.submitted), OracleV { fetch_count: bump(o.fetch_count), ..o })
}

fn contains_u32(v: &Vec<u32>, x: u32) -> (r: bool)
    ensures
        r == v@.contains(x),
{
    let mut i: usize = 0;
    let n = v.len();
    while i < n
        invariant
            i <= n,
            n == v@.len(),
            forall|j: int| 0 <= j < i ==> v@[j] != x,
        decreases n - i,
    {
        if v[i] == x {
            return true;
        }
        i += 1;
    }
    false
}

fn correct_ids_pos(c: &Vec<(u32, Vec<u32>)>, qid: u32) -> (r: Option<usize>)
    ensures
        (match r {
            Some(j) => 0 <= j < c@.len() && correct_ids(correct_view(c@), qid) == c@[j as int].1@,
            None => correct_ids(correct_view(c@), qid) == Seq::<u32>::empty(),
        }),
{
    let ghost cv = correct_view(c@);
    let mut i: usize = 0;
    let n = c.len();
    proof {
        assert(cv.skip(0) =~= cv);
    }
    while i < n
        invariant
            i <= n,
            n == c@.len(),
            cv == correct_view(c@),
            correct_ids(cv, qid) == correct_ids(cv.skip(i as int), qid),
        decreases n - i,
    {
        proof {
            assert(cv[i as int] == (c@[i as int].0, c@[i as int].1@));
            assert(cv.skip(i as int)[0] == cv[i as int]);
        }
        if c[i].0 == qid {
            return Some(i);
        }
        proof {
            assert(cv.skip(i as int).drop_first() =~= cv.skip(i as int + 1));
        }
        i += 1;
    }
    proof {
        assert(cv.skip(n as int) =~= Seq::<(u32, Seq<u32>)>::empty());
    }
    None
}

fn grade_question(q: &Question, submitted_q: bool, corr: Option<&Vec<u32>>) -> (r: Question)
    ensures
        r@ == graded_question(
            q@,
            submitted_q,
            (match corr {
                Some(c) => c@,
                None => Seq::<u32>::empty(),
            }),
        ),
{
    let ghost corr_v: Seq<u32> = (match corr {
        Some(c) => c@,
        None => Seq::<u32>::empty(),
    });
    let mut graded: Vec<Answer> = Vec::new();
    let mut i: usize = 0;
    let n = q.answers.len();
    while i < n
        invariant
            i <= n,
            n == q.answers@.len(),
            corr_v == (match corr {
                Some(c) => c@,
                None => Seq::<u32>::empty(),
            }),
            graded@.len() == i,
            forall|j: int| 0 <= j < i ==> #[trigger] graded@[j]@ == graded_answer(
                q.answers@[j]@,
                submitted_q,
                corr_v,
            ),
        decreases n - i,
    {
        let a = &q.answers[i];
        let flag = if submitted_q {
            let hit = match corr {
                Some(c) => contains_u32(c, a.id),
                None => false,
            };
            Some(hit)
        } else {
            None
        };
        let mut na = a.clone();
        na.user_correct = flag;
        graded.push(na);
        i += 1;
    }
    let mut r = q.clone();
    r.answers = graded;
    proof {
        assert(answers_view(r.answers@) =~= q@.answers.map_values(
            |a: AnswerV| graded_answer(a, submitted_q, corr_v),
        ));
        assert(r@ =~= graded_question(q@, submitted_q, corr_v));
    }
    r
}

impl Oracle {
    /// A fresh model platform serving `base`, with the given correct
    /// option ids per question, before any traffic.
    pub fn new(base: TestSnapshot, correct: Vec<(u32, Vec<u32>)>) -> (r: Oracle)
        ensures
            r@ == (OracleV {
                base: base@,
                correct: correct_view(correct@),
                submitted: Seq::<u32>::empty(),
                submissions: Seq::<SubmissionV>::empty(),
                fetch_count: 0,
            }),
    {
        let r = Oracle {
            base,
            correct,
            submitted: Vec::new(),
            submissions: Vec::new(),
            fetch_count: 0,
        };
        proof {
            assert(submissions_view(r.submissions@) =~= Seq::<SubmissionV>::empty());
        }
        r
    }

    /// Accepts a submission: records it and marks its question as graded
    /// from now on.  Like the platform, it returns no correctness
    /// feedback here — that is only visible in the next fetch.
    pub fn submit(&mut self, s: Submission)
        ensures
            final(self)@ == oracle_submit(old(self)@, s@),
    {
        let ghost sv = s@;
        self.submitted.push(s.question_id);
        self.submissions.push(s);
        proof {
            assert(submissions_view(self.submissions@) =~= submissions_view(
                old(self).submissions@,
            ).push(sv));
            assert(self@ =~= oracle_submit(old(self)@, sv));
        }
    }

    /// Serves the test snapshot, graded according to what has been
    /// submitted so far, and counts the fetch.
    pub fn fetch(&mut self) -> (r: TestSnapshot)
        ensures
            final(self)@ == oracle_fetch(old(self)@).1,
            r@ == oracle_fetch(old(self)@).0,
    {
        if self.fetch_count < u64::MAX {
            self.fetch_count = self.fetch_count + 1;
        }
        let mut groups: Vec<Vec<Question>> = Vec::new();
        let mut i: usize = 0;
        let n = self.base.questions.len();
        while i < n
            invariant
                i <= n,
                n == self.base.questions@.len(),
                groups@.len() == i,
                forall|j: int| 0 <= j < i ==> #[trigger] group_view(groups@[j]@)
                    == self.base@[j].map_values(
                    |q: QuestionV|
                        graded_question(
                            q,
                            self@.submitted.contains(q.id),
                            correct_ids(self@.correct, q.id),
                        ),
                ),
            decreases n - i,
        {
            let g = &self.base.questions[i];
            let mut ng: Vec<Question> = Vec::new();
            let mut k: usize = 0;
            let m = g.len();
            while k < m
                invariant
                    k <= m,
                    m == g@.len(),
                    i < n,
                    n == self.base.questions@.len(),
                    g == &self.base.questions@[i as int],
                    ng@.len() == k,
                    forall|j: int| 0 <= j < k ==> #[trigger] ng@[j]@ == graded_question(
                        g@[j]@,
                        self@.submitted.contains(g@[j]@.id),
                        correct_ids(self@.correct, g@[j]@.id),
                    ),
                decreases m - k,
            {
                let q = &g[k];
                let submitted_q = contains_u32(&self.submitted, q.id);
                let corr = match correct_ids_pos(&self.correct, q.id) {
                    Some(j) => Some(&self.correct[j].1),
                    None => None,
                };
                ng.push(grade_question(q, submitted_q, corr));
                k += 1;
            }
            proof {
                assert(group_view(ng@) =~= group_view(g@).map_values(
                    |q: QuestionV|
                        graded_question(
                            q,
                            self@.submitted.contains(q.id),
                            correct_ids(self@.correct, q.id),
                        ),
                ));
                assert(group_view(g@) == self.base@[i as int]);
            }
            groups.push(ng);
            i += 1;
        }
        let r = TestSnapshot { questions: groups };
        proof {
            assert(r@ =~= graded_snapshot(self@.base, self@.correct, self@.submitted));
            assert(self@.base == old(self)@.base);
            assert(self@ =~= oracle_fetch(old(self)@).1);
        }
        r
    }
}

} // verus!
