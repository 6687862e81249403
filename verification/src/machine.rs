use vstd::prelude::*;
use vstd::pervasive::unreached;
use vstd::string::StringExecFns;
use crate::answers::all_mapping;
use crate::answers::cb_exact;
use crate::answers::cb_human;
use crate::answers::cb_machine;
use crate::answers::cb_mapping;
use crate::answers::checkbox_all;
use crate::answers::checkbox_collect;
use crate::answers::corr_mapping;
use crate::answers::correspondence_answer;
use crate::answers::input_answer;
use crate::answers::input_result;
use crate::answers::numeric_answer;
use crate::answers::positions_all_present;
use crate::answers::radio_answer;
use crate::answers::radio_mapping;
use crate::answers::radio_probe;
use crate::answers::radio_result;
use crate::answers::select_input_answer;
use crate::answers::si_human;
use crate::answers::si_mapping;
use crate::answers::sort_answer;
use crate::answers::sort_exact;
use crate::answers::sort_human;
use crate::answers::sort_mapping;
use crate::answers::text_input_answer;
use crate::answers::ti_human;
use crate::answers::ti_mapping;
use crate::answers::unsupported_answer;
use crate::answers::unsupported_result;
use crate::answers::value_or_note;
use crate::answers::values_all_present;
use crate::cache::TestCache;
use crate::cache::find_question;
use crate::cache::find_question_exec;
use crate::error::ErrorV;
use crate::error::MatetechError;
use crate::model::Answer;
use crate::model::AnswerV;
use crate::model::AnswerValueV;
use crate::model::GeneratedAnswer;
use crate::model::GeneratedAnswerV;
use crate::model::Question;
use crate::model::QuestionV;
use crate::model::Submission;
use crate::model::SubmissionV;
use crate::model::TestSnapshot;
use crate::model::answers_view;
use crate::sorting::sorted_snapshot_view;

verus! {

/// The closed set of question types the engine knows how to probe.
pub ghost enum QKind {
    Radio,
    Checkbox,
    Input,
    NumericInput,
    Sorting,
    Correspondence,
    TextInput,
    SelectInput,
    Unsupported,
}

/// Classifies a question's type tag.
pub open spec fn kind_of(t: Seq<char>) -> QKind {
    if t == "radio"@ {
        QKind::Radio
    } else if t == "checkbox"@ {
        QKind::Checkbox
    } else if t == "input"@ {
        QKind::Input
    } else if t == "numeric_input"@ {
        QKind::NumericInput
    } else if t == "sort"@ {
        QKind::Sorting
    } else if t == "correspondence"@ {
        QKind::Correspondence
    } else if t == "text_input"@ {
        QKind::TextInput
    } else if t == "select_input"@ {
        QKind::SelectInput
    } else {
        QKind::Unsupported
    }
}

/// Which computation a pending snapshot fetch is for.
#[derive(Clone, Copy, PartialEq, Eq, Structural, Debug)]
pub enum FetchKind {
    Checkbox,
    Numeric,
    Correspondence,
    TextInput,
    SelectInput,
}

/// What the engine asks its caller to do next for the current question —
/// or how the question ended.
pub enum QCommand {
    /// Fetch the attempt's full result snapshot and hand it back.
    Fetch,
    /// Post this answer mapping and report back.
    Submit(Submission),
    /// The question is solved; this is its discovered answer.
    Done(GeneratedAnswer),
    /// The question failed; the orchestrator folds this into a placeholder.
    Fail(MatetechError),
}

/// Mathematical image of a [`QCommand`].
#[verifier::ext_equal]
pub ghost enum QStepV {
    Fetch,
    Submit(SubmissionV),
    Done(GeneratedAnswerV),
    Fail(ErrorV),
}

impl View for QCommand {
    type V = QStepV;

    open spec fn view(&self) -> QStepV {
        match self {
            QCommand::Fetch => QStepV::Fetch,
            QCommand::Submit(s) => QStepV::Submit(s@),
            QCommand::Done(a) => QStepV::Done(a@),
            QCommand::Fail(e) => QStepV::Fail(e@),
        }
    }
}

enum Phase {
    RadioSubmitted { idx: usize },
    RadioFetching { idx: usize },
    CheckboxSubmittedAll,
    Fetching { kind: FetchKind },
    FinalSubmitted { ans: GeneratedAnswer },
    Complete,
}

/// Mathematical image of the solver's phase.
#[verifier::ext_equal]
pub ghost enum PhaseV {
    RadioSubmitted { idx: int },
    RadioFetching { idx: int },
    CheckboxSubmittedAll,
    Fetching { kind: FetchKind },
    FinalSubmitted { ans: GeneratedAnswerV },
    Complete,
}

impl View for Phase {
    type V = PhaseV;

    closed spec fn view(&self) -> PhaseV {
        match self {
            Phase::RadioSubmitted { idx } => PhaseV::RadioSubmitted { idx: *idx as int },
            Phase::RadioFetching { idx } => PhaseV::RadioFetching { idx: *idx as int },
            Phase::CheckboxSubmittedAll => PhaseV::CheckboxSubmittedAll,
            Phase::Fetching { kind } => PhaseV::Fetching { kind: *kind },
            Phase::FinalSubmitted { ans } => PhaseV::FinalSubmitted { ans: ans@ },
            Phase::Complete => PhaseV::Complete,
        }
    }
}

/// The per-question probing engine: holds the question being solved and
/// where the probing stands.  Every network exchange is a [`QCommand`]
/// handed out and an event handed back.
pub struct QuestionSolver {
    q: Question,
    phase: Phase,
}

/// Mathematical image of a [`QuestionSolver`].
#[verifier::ext_equal]
pub ghost struct QuestionSolverV {
    pub q: QuestionV,
    pub phase: PhaseV,
}

impl View for QuestionSolver {
    type V = QuestionSolverV;

    closed spec fn view(&self) -> QuestionSolverV {
        QuestionSolverV { q: self.q@, phase: self.phase@ }
    }
}

/// The first answer option with the given id.
pub open spec fn find_answer(ans: Seq<AnswerV>, id: u32) -> Option<AnswerV>
    decreases ans.len(),
{
    if ans.len() == 0 {
        None
    } else if ans[0].id == id {
        Some(ans[0])
    } else {
        find_answer(ans.drop_first(), id)
    }
}

/// How a single-choice question starts: probe the first option, or give
/// up at once when there is none.
pub open spec fn radio_start(q: QuestionV) -> (PhaseV, QStepV) {
    if q.answers.len() == 0 {
        (PhaseV::Complete, QStepV::Fail(ErrorV::Unknown("unable to find correct answer"@)))
    } else {
        (
            PhaseV::RadioSubmitted { idx: 0 },
            QStepV::Submit(SubmissionV { question_id: q.id, mapping: radio_mapping(q, 0) }),
        )
    }
}

/// How a single-choice probe continues once the refetched question `rq`
/// is at hand: stop on the confirmed option, otherwise probe the next
/// one, or give up after the last.
pub open spec fn radio_check_step(q: QuestionV, idx: int, rq: QuestionV) -> (PhaseV, QStepV) {
    match find_answer(rq.answers, q.answers[idx].id) {
        None => (PhaseV::Complete, QStepV::Fail(ErrorV::Other("must find answer in question"@))),
        Some(a) => {
            if a.user_correct == Some(true) {
                (PhaseV::Complete, QStepV::Done(radio_result(q, idx)))
            } else if idx + 1 < q.answers.len() {
                (
                    PhaseV::RadioSubmitted { idx: idx + 1 },
                    QStepV::Submit(
                        SubmissionV { question_id: q.id, mapping: radio_mapping(q, idx + 1) },
                    ),
                )
            } else {
                (
                    PhaseV::Complete,
                    QStepV::Fail(ErrorV::Unknown("unable to find correct answer"@)),
                )
            }
        },
    }
}

/// What each fetch-dependent question type does once the refetched
/// question `rq` is at hand.
pub open spec fn kind_result_step(q: QuestionV, kind: FetchKind, rq: QuestionV) -> (
    PhaseV,
    QStepV,
) {
    match kind {
        FetchKind::Checkbox => (
            PhaseV::FinalSubmitted {
                ans: GeneratedAnswerV {
                    question_id: q.id,
                    question: q.question,
                    human: cb_human(rq.answers, rq.answers.len() as int),
                    exact: cb_exact(rq.answers, rq.answers.len() as int),
                    machine: cb_machine(rq.answers, rq.answers.len() as int),
                },
            },
            QStepV::Submit(
                SubmissionV {
                    question_id: q.id,
                    mapping: cb_mapping(rq.answers, rq.answers.len() as int),
                },
            ),
        ),
        FetchKind::Numeric => {
            if rq.answers.len() == 0 {
                (PhaseV::Complete, QStepV::Fail(ErrorV::Other("empty answers"@)))
            } else {
                let v = value_or_note(rq.answers[0].value);
                (
                    PhaseV::FinalSubmitted {
                        ans: GeneratedAnswerV {
                            question_id: q.id,
                            question: q.question,
                            human: v,
                            exact: v,
                            machine: v,
                        },
                    },
                    QStepV::Submit(
                        SubmissionV {
                            question_id: q.id,
                            mapping: seq![(q.answers[0].id, AnswerValueV::Text(v))],
                        },
                    ),
                )
            }
        },
        FetchKind::Correspondence => {
            match rq.correspondence_links {
                None => (
                    PhaseV::Complete,
                    QStepV::Fail(ErrorV::Unknown("no correspondence_links"@)),
                ),
                Some(links) => (
                    PhaseV::FinalSubmitted {
                        ans: GeneratedAnswerV {
                            question_id: q.id,
                            question: q.question,
                            human: "DONE"@,
                            exact: "DONE"@,
                            machine: "DONE"@,
                        },
                    },
                    QStepV::Submit(
                        SubmissionV {
                            question_id: q.id,
                            mapping: corr_mapping(links, links.len() as int),
                        },
                    ),
                ),
            }
        },
        FetchKind::TextInput => {
            if values_all_present(rq.answers) {
                (
                    PhaseV::FinalSubmitted {
                        ans: GeneratedAnswerV {
                            question_id: q.id,
                            question: q.question,
                            human: ti_human(rq.answers, rq.answers.len() as int),
                            exact: ti_human(rq.answers, rq.answers.len() as int),
                            machine: ti_human(rq.answers, rq.answers.len() as int),
                        },
                    },
                    QStepV::Submit(
                        SubmissionV {
                            question_id: q.id,
                            mapping: ti_mapping(rq.answers, rq.answers.len() as int),
                        },
                    ),
                )
            } else {
                (PhaseV::Complete, QStepV::Fail(ErrorV::Unknown("no value"@)))
            }
        },
        FetchKind::SelectInput => {
            match rq.select_input_items {
                None => (
                    PhaseV::Complete,
                    QStepV::Fail(ErrorV::Unknown("no select_input_items"@)),
                ),
                Some(items) => (
                    PhaseV::FinalSubmitted {
                        ans: GeneratedAnswerV {
                            question_id: q.id,
                            question: q.question,
                            human: si_human(items, items.len() as int),
                            exact: si_human(items, items.len() as int),
                            machine: si_human(items, items.len() as int),
                        },
                    },
                    QStepV::Submit(
                        SubmissionV {
                            question_id: q.id,
                            mapping: si_mapping(items, items.len() as int),
                        },
                    ),
                ),
            }
        },
    }
}

/// Applies a fetch-dependent step to the cache: with a snapshot at hand
/// the computation runs at once, otherwise a fetch is issued first.
pub open spec fn need_result_start(
    q: QuestionV,
    kind: FetchKind,
    cache: Option<Seq<Seq<QuestionV>>>,
) -> (PhaseV, Option<Seq<Seq<QuestionV>>>, QStepV) {
    match cache {
        None => (PhaseV::Fetching { kind }, None, QStepV::Fetch),
        Some(snap) => {
            match find_question(snap, q.id) {
                None => (
                    PhaseV::Complete,
                    cache,
                    QStepV::Fail(ErrorV::Other("question not found"@)),
                ),
                Some(rq) => {
                    let (ph, st) = kind_result_step(q, kind, rq);
                    (ph, cache, st)
                },
            }
        },
    }
}

/// The engine's first step on a question: dispatch on the type tag.
pub open spec fn begin_step(q: QuestionV, cache: Option<Seq<Seq<QuestionV>>>) -> (
    PhaseV,
    Option<Seq<Seq<QuestionV>>>,
    QStepV,
) {
    match kind_of(q.qtype) {
        QKind::Radio => {
            let (ph, st) = radio_start(q);
            (ph, cache, st)
        },
        QKind::Checkbox => (
            PhaseV::CheckboxSubmittedAll,
            cache,
            QStepV::Submit(
                SubmissionV { question_id: q.id, mapping: all_mapping(q.answers, q.answers.len() as int) },
            ),
        ),
        QKind::Input => {
            if q.answers.len() == 1 {
                (
                    PhaseV::FinalSubmitted { ans: input_result(q).1 },
                    cache,
                    QStepV::Submit(input_result(q).0),
                )
            } else {
                (
                    PhaseV::Complete,
                    cache,
                    QStepV::Fail(ErrorV::Unknown("there must be exactly 1 answer"@)),
                )
            }
        },
        QKind::NumericInput => {
            if q.answers.len() != 1 {
                (
                    PhaseV::Complete,
                    cache,
                    QStepV::Fail(ErrorV::Unknown("there must be exactly 1 answer"@)),
                )
            } else {
                need_result_start(q, FetchKind::Numeric, cache)
            }
        },
        QKind::Sorting => {
            if positions_all_present(q.answers) {
                (
                    PhaseV::FinalSubmitted {
                        ans: GeneratedAnswerV {
                            question_id: q.id,
                            question: q.question,
                            human: sort_human(q.answers, q.answers.len() as int),
                            exact: sort_exact(q.answers, q.answers.len() as int),
                            machine: sort_human(q.answers, q.answers.len() as int),
                        },
                    },
                    cache,
                    QStepV::Submit(
                        SubmissionV {
                            question_id: q.id,
                            mapping: sort_mapping(q.answers, q.answers.len() as int),
                        },
                    ),
                )
            } else {
                (
                    PhaseV::Complete,
                    cache,
                    QStepV::Fail(ErrorV::Unknown("correct_position must be Some(u32)"@)),
                )
            }
        },
        QKind::Correspondence => need_result_start(q, FetchKind::Correspondence, cache),
        QKind::TextInput => need_result_start(q, FetchKind::TextInput, cache),
        QKind::SelectInput => need_result_start(q, FetchKind::SelectInput, cache),
        QKind::Unsupported => (PhaseV::Complete, cache, QStepV::Done(unsupported_result(q))),
    }
}

/// The step after a submission was accepted.  The cache is always cleared
/// first; a question in mid-probe refetches, a question past its final
/// submission reports its answer.
pub open spec fn submitted_step(q: QuestionV, phase: PhaseV) -> (PhaseV, QStepV) {
    match phase {
        PhaseV::RadioSubmitted { idx } => (PhaseV::RadioFetching { idx }, QStepV::Fetch),
        PhaseV::CheckboxSubmittedAll => (
            PhaseV::Fetching { kind: FetchKind::Checkbox },
            QStepV::Fetch,
        ),
        PhaseV::FinalSubmitted { ans } => (PhaseV::Complete, QStepV::Done(ans)),
        _ => (PhaseV::Complete, QStepV::Fail(ErrorV::Other(Seq::<char>::empty()))),
    }
}

/// The step after a fetched snapshot arrived (already ordered): resume
/// the pending computation on the refetched question.
pub open spec fn snapshot_step(q: QuestionV, phase: PhaseV, snap: Seq<Seq<QuestionV>>) -> (
    PhaseV,
    QStepV,
) {
    match phase {
        PhaseV::RadioFetching { idx } => {
            match find_question(snap, q.id) {
                None => (PhaseV::Complete, QStepV::Fail(ErrorV::Other("question not found"@))),
                Some(rq) => radio_check_step(q, idx, rq),
            }
        },
        PhaseV::Fetching { kind } => {
            match find_question(snap, q.id) {
                None => (PhaseV::Complete, QStepV::Fail(ErrorV::Other("question not found"@))),
                Some(rq) => kind_result_step(q, kind, rq),
            }
        },
        _ => (PhaseV::Complete, QStepV::Fail(ErrorV::Other(Seq::<char>::empty()))),
    }
}

impl QuestionSolverV {
    /// The machine is waiting for a submission acknowledgement.
    pub open spec fn expects_submitted(self) -> bool {
        match self.phase {
            PhaseV::RadioSubmitted { .. } => true,
            PhaseV::CheckboxSubmittedAll => true,
            PhaseV::FinalSubmitted { .. } => true,
            _ => false,
        }
    }

    /// The machine is waiting for a fetched snapshot.
    pub open spec fn expects_snapshot(self) -> bool {
        match self.phase {
            PhaseV::RadioFetching { .. } => true,
            PhaseV::Fetching { .. } => true,
            _ => false,
        }
    }

    /// The question ended: its last command was `Done` or `Fail`.
    pub open spec fn is_complete(self) -> bool {
        self.phase is Complete
    }

    /// The machine's internal consistency: a probing index stays within
    /// the options, and a pending numeric fetch implies the one-slot shape
    /// was already checked.
    pub open spec fn wf(self) -> bool {
        match self.phase {
            PhaseV::RadioSubmitted { idx } => 0 <= idx < self.q.answers.len(),
            PhaseV::RadioFetching { idx } => 0 <= idx < self.q.answers.len(),
            PhaseV::Fetching { kind } => kind == FetchKind::Numeric ==> self.q.answers.len()
                == 1,
            _ => true,
        }
    }

    /// How far the question still has to go; every event strictly shrinks
    /// it, so any driver loop terminates.
    pub open spec fn measure(self) -> int {
        match self.phase {
            PhaseV::RadioSubmitted { idx } => 5 + 3 * (if self.q.answers.len() - idx >= 0 {
                self.q.answers.len() - idx
            } else {
                0
            }),
            PhaseV::RadioFetching { idx } => 4 + 3 * (if self.q.answers.len() - idx >= 0 {
                self.q.answers.len() - idx
            } else {
                0
            }),
            PhaseV::CheckboxSubmittedAll => 3,
            PhaseV::Fetching { .. } => 2,
            PhaseV::FinalSubmitted { .. } => 1,
            PhaseV::Complete => 0,
        }
    }
}

fn qtype_is(q: &Question, lit: &str) -> (r: bool)
    ensures
        r == (q@.qtype == lit@),
{
    let l = String::from_str(lit);
    q.qtype == l
}

fn find_answer_exec(ans: &Vec<Answer>, id: u32) -> (r: Option<usize>)
    ensures
        (match r {
            Some(j) => 0 <= j < ans@.len() && find_answer(answers_view(ans@), id) == Some(
                ans@[j as int]@,
            ),
            None => find_answer(answers_view(ans@), id) is None,
        }),
{
    let ghost av = answers_view(ans@);
    let mut j: usize = 0;
    let n = ans.len();
    proof {
        assert(av.skip(0) =~= av);
    }
    while j < n
        invariant
            j <= n,
            n == ans@.len(),
            av == answers_view(ans@),
            find_answer(av, id) == find_answer(av.skip(j as int), id),
        decreases n - j,
    {
        proof {
            assert(av[j as int] == ans@[j as int]@);
            assert(av.skip(j as int)[0] == av[j as int]);
        }
        if ans[j].id == id {
            proof {
                assert(find_answer(av.skip(j as int), id) == Some(av[j as int]));
            }
            return Some(j);
        }
        proof {
            assert(av.skip(j as int).drop_first() =~= av.skip(j as int + 1));
        }
        j += 1;
    }
    proof {
        assert(av.skip(n as int) =~= Seq::<AnswerV>::empty());
    }
    None
}

fn kind_step_exec(q: &Question, kind: FetchKind, rq: &Question) -> (r: (Phase, QCommand))
    requires
        kind == FetchKind::Numeric ==> q@.answers.len() == 1,
    ensures
        ({
            let (ph, st) = kind_result_step(q@, kind, rq@);
            r.0@ == ph && r.1@ == st
        }),
{
    match kind {
        FetchKind::Checkbox => {
            let (s, a) = checkbox_collect(q, rq);
            (Phase::FinalSubmitted { ans: a }, QCommand::Submit(s))
        },
        FetchKind::Numeric => {
            match numeric_answer(q, rq) {
                Ok((s, a)) => (Phase::FinalSubmitted { ans: a }, QCommand::Submit(s)),
                Err(e) => (Phase::Complete, QCommand::Fail(e)),
            }
        },
        FetchKind::Correspondence => {
            match correspondence_answer(q, rq) {
                Ok((s, a)) => (Phase::FinalSubmitted { ans: a }, QCommand::Submit(s)),
                Err(e) => (Phase::Complete, QCommand::Fail(e)),
            }
        },
        FetchKind::TextInput => {
            match text_input_answer(q, rq) {
                Ok((s, a)) => (Phase::FinalSubmitted { ans: a }, QCommand::Submit(s)),
                Err(e) => (Phase::Complete, QCommand::Fail(e)),
            }
        },
        FetchKind::SelectInput => {
            match select_input_answer(q, rq) {
                Ok((s, a)) => (Phase::FinalSubmitted { ans: a }, QCommand::Submit(s)),
                Err(e) => (Phase::Complete, QCommand::Fail(e)),
            }
        },
    }
}

fn radio_check_exec(q: &Question, idx: usize, rq: &Question) -> (r: (Phase, QCommand))
    requires
        idx < q@.answers.len(),
    ensures
        ({
            let (ph, st) = radio_check_step(q@, idx as int, rq@);
            r.0@ == ph && r.1@ == st
        }),
{
    let n = q.answers.len();
    proof {
        assert(idx < n);
    }
    let id = q.answers[idx].id;
    proof {
        assert(q@.answers[idx as int] == q.answers@[idx as int]@);
    }
    match find_answer_exec(&rq.answers, id) {
        None => (
            Phase::Complete,
            QCommand::Fail(MatetechError::Other(String::from_str("must find answer in question"))),
        ),
        Some(j) => {
            let correct = match rq.answers[j].user_correct {
                Some(true) => true,
                _ => false,
            };
            proof {
                assert(rq@.answers[j as int] == rq.answers@[j as int]@);
            }
            if correct {
                (Phase::Complete, QCommand::Done(radio_answer(q, idx)))
            } else if idx + 1 < n {
                let s = radio_probe(q, idx + 1);
                (Phase::RadioSubmitted { idx: idx + 1 }, QCommand::Submit(s))
            } else {
                (
                    Phase::Complete,
                    QCommand::Fail(
                        MatetechError::Unknown(String::from_str("unable to find correct answer")),
                    ),
                )
            }
        },
    }
}

impl QuestionSolver {
    /// Starts solving `q`.  The first command follows [`begin_step`]: a
    /// question that violates its own shape fails at once, before any
    /// network traffic; a fetch-dependent question is served from the
    /// cache when it can be.
    pub fn begin(q: Question, cache: &mut TestCache) -> (r: (QuestionSolver, QCommand))
        ensures
            ({
                let (ph, c2, st) = begin_step(q@, old(cache)@);
                r.0@ == (QuestionSolverV { q: q@, phase: ph }) && final(cache)@ == c2 && r.1@
                    == st
            }),
            r.0@.wf(),
            r.1@ is Submit ==> r.0@.expects_submitted(),
            r.1@ is Fetch ==> r.0@.expects_snapshot(),
            (r.1@ is Done || r.1@ is Fail) ==> r.0@.is_complete(),
    {
        if qtype_is(&q, "radio") {
            if q.answers.len() == 0 {
                let e = MatetechError::Unknown(String::from_str("unable to find correct answer"));
                (QuestionSolver { q, phase: Phase::Complete }, QCommand::Fail(e))
            } else {
                let s = radio_probe(&q, 0);
                (
                    QuestionSolver { q, phase: Phase::RadioSubmitted { idx: 0 } },
                    QCommand::Submit(s),
                )
            }
        } else if qtype_is(&q, "checkbox") {
            let s = checkbox_all(&q);
            (QuestionSolver { q, phase: Phase::CheckboxSubmittedAll }, QCommand::Submit(s))
        } else if qtype_is(&q, "input") {
            match input_answer(&q) {
                Ok((s, a)) => (
                    QuestionSolver { q, phase: Phase::FinalSubmitted { ans: a } },
                    QCommand::Submit(s),
                ),
                Err(e) => (QuestionSolver { q, phase: Phase::Complete }, QCommand::Fail(e)),
            }
        } else if qtype_is(&q, "numeric_input") {
            if q.answers.len() != 1 {
                let e = MatetechError::Unknown(String::from_str("there must be exactly 1 answer"));
                (QuestionSolver { q, phase: Phase::Complete }, QCommand::Fail(e))
            } else {
                Self::need_result(q, FetchKind::Numeric, cache)
            }
        } else if qtype_is(&q, "sort") {
            match sort_answer(&q) {
                Ok((s, a)) => (
                    QuestionSolver { q, phase: Phase::FinalSubmitted { ans: a } },
                    QCommand::Submit(s),
                ),
                Err(e) => (QuestionSolver { q, phase: Phase::Complete }, QCommand::Fail(e)),
            }
        } else if qtype_is(&q, "correspondence") {
            Self::need_result(q, FetchKind::Correspondence, cache)
        } else if qtype_is(&q, "text_input") {
            Self::need_result(q, FetchKind::TextInput, cache)
        } else if qtype_is(&q, "select_input") {
            Self::need_result(q, FetchKind::SelectInput, cache)
        } else {
            let a = unsupported_answer(&q);
            (QuestionSolver { q, phase: Phase::Complete }, QCommand::Done(a))
        }
    }

    fn need_result(q: Question, kind: FetchKind, cache: &mut TestCache) -> (r: (
        QuestionSolver,
        QCommand,
    ))
        requires
            kind == FetchKind::Numeric ==> q@.answers.len() == 1,
        ensures
            ({
                let (ph, c2, st) = need_result_start(q@, kind, old(cache)@);
                r.0@ == (QuestionSolverV { q: q@, phase: ph }) && final(cache)@ == c2 && r.1@
                    == st
            }),
            final(cache)@ == old(cache)@,
    {
        let rq_opt = match cache.peek() {
            None => {
                return (QuestionSolver { q, phase: Phase::Fetching { kind } }, QCommand::Fetch);
            },
            Some(snap) => find_question_exec(snap, q.id),
        };
        match rq_opt {
            None => (
                QuestionSolver { q, phase: Phase::Complete },
                QCommand::Fail(MatetechError::Other(String::from_str("question not found"))),
            ),
            Some(rq) => {
                let (ph, cmd) = kind_step_exec(&q, kind, &rq);
                (QuestionSolver { q, phase: ph }, cmd)
            },
        }
    }

    /// The platform accepted a submission.  The cached snapshot is
    /// dropped unconditionally — scoring state may have changed — so the
    /// next snapshot the engine needs is a fresh fetch.
    pub fn on_submitted(&mut self, cache: &mut TestCache) -> (r: QCommand)
        requires
            old(self)@.expects_submitted(),
        ensures
            final(cache)@ is None,
            final(self)@.q == old(self)@.q,
            ({
                let (ph, st) = submitted_step(old(self)@.q, old(self)@.phase);
                final(self)@.phase == ph && r@ == st
            }),
            old(self)@.wf() ==> final(self)@.wf(),
            old(self)@.wf() ==> final(self)@.measure() < old(self)@.measure(),
            r@ is Submit ==> final(self)@.expects_submitted(),
            r@ is Fetch ==> final(self)@.expects_snapshot(),
            (r@ is Done || r@ is Fail) ==> final(self)@.is_complete(),
    {
        cache.invalidate();
        let (ph, cmd) = match &self.phase {
            Phase::RadioSubmitted { idx } => (Phase::RadioFetching { idx: *idx }, QCommand::Fetch),
            Phase::CheckboxSubmittedAll => (
                Phase::Fetching { kind: FetchKind::Checkbox },
                QCommand::Fetch,
            ),
            Phase::FinalSubmitted { ans } => (Phase::Complete, QCommand::Done(ans.clone())),
            _ => unreached(),
        };
        self.phase = ph;
        cmd
    }

    /// A freshly fetched snapshot arrived.  It is ordered and installed
    /// in the cache, and the pending computation resumes on it.
    pub fn on_snapshot(&mut self, cache: &mut TestCache, raw: &TestSnapshot) -> (r: QCommand)
        requires
            old(self)@.expects_snapshot(),
            old(self)@.wf(),
        ensures
            final(cache)@ == Some(sorted_snapshot_view(raw@)),
            final(self)@.q == old(self)@.q,
            ({
                let (ph, st) = snapshot_step(
                    old(self)@.q,
                    old(self)@.phase,
                    sorted_snapshot_view(raw@),
                );
                final(self)@.phase == ph && r@ == st
            }),
            final(self)@.wf(),
            final(self)@.measure() < old(self)@.measure(),
            r@ is Submit ==> final(self)@.expects_submitted(),
            r@ is Fetch ==> final(self)@.expects_snapshot(),
            (r@ is Done || r@ is Fail) ==> final(self)@.is_complete(),
    {
        cache.install(raw);
        let rq_opt = match cache.peek() {
            Some(snap) => find_question_exec(snap, self.q.id),
            None => unreached(),
        };
        let (ph, cmd) = match (&self.phase, rq_opt) {
            (Phase::RadioFetching { .. }, None) | (Phase::Fetching { .. }, None) => (
                Phase::Complete,
                QCommand::Fail(MatetechError::Other(String::from_str("question not found"))),
            ),
            (Phase::RadioFetching { idx }, Some(rq)) => radio_check_exec(&self.q, *idx, &rq),
            (Phase::Fetching { kind }, Some(rq)) => kind_step_exec(&self.q, *kind, &rq),
            _ => unreached(),
        };
        self.phase = ph;
        cmd
    }

    /// The transport failed while performing the last command.  The
    /// question ends with that failure; the session and its cache are
    /// untouched and the next question can start cleanly.
    pub fn on_failed(&mut self, e: MatetechError) -> (r: QCommand)
        ensures
            final(self)@.q == old(self)@.q,
            final(self)@.phase == PhaseV::Complete,
            final(self)@.wf(),
            r@ == QStepV::Fail(e@),
    {
        self.phase = Phase::Complete;
        QCommand::Fail(e)
    }

    /// The question this engine is solving.
    pub fn question(&self) -> (r: &Question)
        ensures
            r@ == self@.q,
    {
        &self.q
    }
}

} // verus!
