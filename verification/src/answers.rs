use vstd::prelude::*;
use vstd::string::StringExecFns;
use crate::error::ErrorV;
use crate::error::MatetechError;
use crate::error::error_message_view;
use crate::model::AnswerV;
use crate::model::AnswerValue;
use crate::model::AnswerValueV;
use crate::model::GeneratedAnswer;
use crate::model::GeneratedAnswerV;
use crate::model::CorrespondenceLink;
use crate::model::Question;
use crate::model::QuestionV;
use crate::model::SelectInputItemV;
use crate::model::Submission;
use crate::model::SubmissionV;
use crate::model::mapping_view;
use crate::numstr::decimal;
use crate::numstr::u32_to_string;
use crate::numstr::u64_to_string;

verus! {

/// An option's display value, or the fixed note the engine substitutes
/// when the platform sent none.
pub open spec fn value_or_note(v: Option<Seq<char>>) -> Seq<char> {
    match v {
        Some(s) => s,
        None => "answer value is None"@,
    }
}

pub fn value_or_note_exec(v: &Option<String>) -> (r: String)
    ensures
        r@ == value_or_note(crate::model::opt_str(*v)),
{
    match v {
        Some(s) => s.clone(),
        None => String::from_str("answer value is None"),
    }
}

/// The mapping that probes one single-choice option: the option's id,
/// mapped to its own id rendered in decimal.
pub open spec fn radio_mapping(q: QuestionV, i: int) -> Seq<(u32, AnswerValueV)> {
    seq![(q.answers[i].id, AnswerValueV::Text(decimal(q.answers[i].id as nat)))]
}

/// The answer reported for a single-choice question whose option at
/// position `i` (zero-based, in cache order) was confirmed: the 1-based
/// position for a reader, the option's display value in full, the option's
/// id for the protocol.
pub open spec fn radio_result(q: QuestionV, i: int) -> GeneratedAnswerV {
    GeneratedAnswerV {
        question_id: q.id,
        question: q.question,
        human: decimal((i + 1) as nat),
        exact: value_or_note(q.answers[i].value),
        machine: decimal(q.answers[i].id as nat),
    }
}

/// The submission that probes option `i` of a single-choice question.
pub fn radio_probe(q: &Question, i: usize) -> (s: Submission)
    requires
        i < q@.answers.len(),
    ensures
        s@ == (SubmissionV { question_id: q@.id, mapping: radio_mapping(q@, i as int) }),
{
    let id = q.answers[i].id;
    let mut mapping: Vec<(u32, AnswerValue)> = Vec::new();
    mapping.push((id, AnswerValue::Text(u32_to_string(id))));
    proof {
        assert(mapping_view(mapping@) =~= radio_mapping(q@, i as int));
    }
    Submission { question_id: q.id, mapping }
}

/// The discovered answer for a confirmed single-choice option.
pub fn radio_answer(q: &Question, i: usize) -> (r: GeneratedAnswer)
    requires
        i < q@.answers.len(),
    ensures
        r@ == radio_result(q@, i as int),
{
    let n = q.answers.len();
    proof {
        assert(i < n);
    }
    let a = &q.answers[i];
    GeneratedAnswer {
        question_id: q.id,
        question: q.question.clone(),
        human: u64_to_string((i as u64) + 1),
        exact: value_or_note_exec(&a.value),
        machine: u32_to_string(a.id),
    }
}

/// The placeholder answer for a question type the engine does not know:
/// all three forms carry the type tag.
pub open spec fn unsupported_result(q: QuestionV) -> GeneratedAnswerV {
    GeneratedAnswerV {
        question_id: q.id,
        question: q.question,
        human: "UNSUPPORTED: "@ + q.qtype,
        exact: "UNSUPPORTED: "@ + q.qtype,
        machine: "UNSUPPORTED: "@ + q.qtype,
    }
}

pub fn unsupported_answer(q: &Question) -> (r: GeneratedAnswer)
    ensures
        r@ == unsupported_result(q@),
{
    let text = String::from_str("UNSUPPORTED: ").concat(q.qtype.as_str());
    GeneratedAnswer {
        question_id: q.id,
        question: q.question.clone(),
        human: text.clone(),
        exact: text.clone(),
        machine: text,
    }
}

/// The placeholder answer a failed question folds into: all three forms
/// carry the error's one-line message.
pub open spec fn error_result(q: QuestionV, e: ErrorV) -> GeneratedAnswerV {
    GeneratedAnswerV {
        question_id: q.id,
        question: q.question,
        human: "ERROR: "@ + error_message_view(e),
        exact: "ERROR: "@ + error_message_view(e),
        machine: "ERROR: "@ + error_message_view(e),
    }
}

pub fn error_answer(q: &Question, e: &MatetechError) -> (r: GeneratedAnswer)
    ensures
        r@ == error_result(q@, e@),
{
    let text = String::from_str("ERROR: ").concat(e.message().as_str());
    GeneratedAnswer {
        question_id: q.id,
        question: q.question.clone(),
        human: text.clone(),
        exact: text.clone(),
        machine: text,
    }
}

/// What a fill-in question submits and reports when it has exactly one
/// answer slot: the slot's own declared value, in the mapping and in all
/// three rendered forms.
pub open spec fn input_result(q: QuestionV) -> (SubmissionV, GeneratedAnswerV) {
    let value = value_or_note(q.answers[0].value);
    (
        SubmissionV {
            question_id: q.id,
            mapping: seq![(q.answers[0].id, AnswerValueV::Text(value))],
        },
        GeneratedAnswerV {
            question_id: q.id,
            question: q.question,
            human: value,
            exact: value,
            machine: value,
        },
    )
}

/// A fill-in question must offer exactly one answer slot; the submission
/// echoes the slot's declared value.  With any other number of slots the
/// question is rejected before anything is submitted.
pub fn input_answer(q: &Question) -> (r: Result<(Submission, GeneratedAnswer), MatetechError>)
    ensures
        q@.answers.len() == 1 ==> (match r {
            Ok((s, a)) => s@ == input_result(q@).0 && a@ == input_result(q@).1,
            Err(_) => false,
        }),
        q@.answers.len() != 1 ==> (match r {
            Ok(_) => false,
            Err(e) => e@ == ErrorV::Unknown("there must be exactly 1 answer"@),
        }),
{
    if q.answers.len() != 1 {
        return Err(MatetechError::Unknown(String::from_str("there must be exactly 1 answer")));
    }
    let value = value_or_note_exec(&q.answers[0].value);
    let mut mapping: Vec<(u32, AnswerValue)> = Vec::new();
    mapping.push((q.answers[0].id, AnswerValue::Text(value.clone())));
    proof {
        assert(mapping_view(mapping@) =~= input_result(q@).0.mapping);
    }
    let s = Submission { question_id: q.id, mapping };
    let a = GeneratedAnswer {
        question_id: q.id,
        question: q.question.clone(),
        human: value.clone(),
        exact: value.clone(),
        machine: value,
    };
    Ok((s, a))
}

/// Whether the refetched platform feedback flags this option as answered
/// correctly by the user.
pub open spec fn checkbox_correct(a: AnswerV) -> bool {
    a.user_correct == Some(true)
}

/// The all-options probe of a multi-choice question: the first `n` options,
/// each mapped to its own id in decimal, in option order.
pub open spec fn all_mapping(ans: Seq<AnswerV>, n: int) -> Seq<(u32, AnswerValueV)>
    decreases n,
{
    if n <= 0 {
        Seq::<(u32, AnswerValueV)>::empty()
    } else {
        all_mapping(ans, n - 1).push(
            (ans[n - 1].id, AnswerValueV::Text(decimal(ans[n - 1].id as nat))),
        )
    }
}

/// The submission that selects every option of a multi-choice question at
/// once, forcing the platform to grade each of them.
pub fn checkbox_all(q: &Question) -> (s: Submission)
    ensures
        s@ == (SubmissionV {
            question_id: q@.id,
            mapping: all_mapping(q@.answers, q@.answers.len() as int),
        }),
{
    let mut mapping: Vec<(u32, AnswerValue)> = Vec::new();
    let mut i: usize = 0;
    while i < q.answers.len()
        invariant
            i <= q@.answers.len(),
            mapping_view(mapping@) == all_mapping(q@.answers, i as int),
        decreases q@.answers.len() - i,
    {
        let id = q.answers[i].id;
        let ghost prev = mapping_view(mapping@);
        mapping.push((id, AnswerValue::Text(u32_to_string(id))));
        proof {
            assert(mapping_view(mapping@) =~= prev.push(
                (id, AnswerValueV::Text(decimal(id as nat))),
            ));
        }
        i += 1;
    }
    Submission { question_id: q.id, mapping }
}

/// The corrected multi-choice submission: among the first `n` graded
/// options, exactly those flagged correct, each mapped to its own id.
pub open spec fn cb_mapping(ans: Seq<AnswerV>, n: int) -> Seq<(u32, AnswerValueV)>
    decreases n,
{
    if n <= 0 {
        Seq::<(u32, AnswerValueV)>::empty()
    } else {
        let rest = cb_mapping(ans, n - 1);
        if checkbox_correct(ans[n - 1]) {
            rest.push((ans[n - 1].id, AnswerValueV::Text(decimal(ans[n - 1].id as nat))))
        } else {
            rest
        }
    }
}

/// The reader's form of a multi-choice answer: the 1-based positions of
/// the correct options, concatenated in order.
pub open spec fn cb_human(ans: Seq<AnswerV>, n: int) -> Seq<char>
    decreases n,
{
    if n <= 0 {
        Seq::<char>::empty()
    } else {
        let rest = cb_human(ans, n - 1);
        if checkbox_correct(ans[n - 1]) {
            rest + decimal(n as nat)
        } else {
            rest
        }
    }
}

/// The full form of a multi-choice answer: the correct options' display
/// values, each followed by a line break.
pub open spec fn cb_exact(ans: Seq<AnswerV>, n: int) -> Seq<char>
    decreases n,
{
    if n <= 0 {
        Seq::<char>::empty()
    } else {
        let rest = cb_exact(ans, n - 1);
        if checkbox_correct(ans[n - 1]) {
            rest + value_or_note(ans[n - 1].value) + "\n"@
        } else {
            rest
        }
    }
}

/// The protocol form of a multi-choice answer: the correct options' ids in
/// decimal, each followed by a space.
pub open spec fn cb_machine(ans: Seq<AnswerV>, n: int) -> Seq<char>
    decreases n,
{
    if n <= 0 {
        Seq::<char>::empty()
    } else {
        let rest = cb_machine(ans, n - 1);
        if checkbox_correct(ans[n - 1]) {
            rest + decimal(ans[n - 1].id as nat) + " "@
        } else {
            rest
        }
    }
}

/// Reads the platform's grading of the all-options probe out of the
/// refetched question `rq` and assembles the corrected submission and the
/// reported answer for the original question `q`.
pub fn checkbox_collect(q: &Question, rq: &Question) -> (r: (Submission, GeneratedAnswer))
    ensures
        r.0@ == (SubmissionV {
            question_id: q@.id,
            mapping: cb_mapping(rq@.answers, rq@.answers.len() as int),
        }),
        r.1@ == (GeneratedAnswerV {
            question_id: q@.id,
            question: q@.question,
            human: cb_human(rq@.answers, rq@.answers.len() as int),
            exact: cb_exact(rq@.answers, rq@.answers.len() as int),
            machine: cb_machine(rq@.answers, rq@.answers.len() as int),
        }),
{
    let mut mapping: Vec<(u32, AnswerValue)> = Vec::new();
    let mut human = String::new();
    let mut exact = String::new();
    let mut machine = String::new();
    let mut i: usize = 0;
    let n = rq.answers.len();
    while i < n
        invariant
            i <= n,
            n == rq@.answers.len(),
            mapping_view(mapping@) == cb_mapping(rq@.answers, i as int),
            human@ == cb_human(rq@.answers, i as int),
            exact@ == cb_exact(rq@.answers, i as int),
            machine@ == cb_machine(rq@.answers, i as int),
        decreases n - i,
    {
        let a = &rq.answers[i];
        let correct = match a.user_correct {
            Some(true) => true,
            _ => false,
        };
        if correct {
            let ghost prev = mapping_view(mapping@);
            let id = a.id;
            mapping.push((id, AnswerValue::Text(u32_to_string(id))));
            proof {
                assert(mapping_view(mapping@) =~= prev.push(
                    (id, AnswerValueV::Text(decimal(id as nat))),
                ));
            }
            human.append(u64_to_string((i as u64) + 1).as_str());
            exact.append(value_or_note_exec(&a.value).as_str());
            exact.append("\n");
            machine.append(u32_to_string(id).as_str());
            machine.append(" ");
        }
        i += 1;
    }
    let s = Submission { question_id: q.id, mapping };
    let ans = GeneratedAnswer {
        question_id: q.id,
        question: q.question.clone(),
        human,
        exact,
        machine,
    };
    (s, ans)
}

/// The corrected multi-choice submission holds exactly the options the
/// platform flagged correct — never more, never fewer.
pub proof fn lemma_cb_mapping_exact(ans: Seq<AnswerV>, n: int)
    requires
        n <= ans.len(),
    ensures
        forall|p: (u32, AnswerValueV)| #[trigger] cb_mapping(ans, n).contains(p) <==> (exists|
            i: int,
        |
            0 <= i < n && checkbox_correct(#[trigger] ans[i]) && p == (
                ans[i].id,
                AnswerValueV::Text(decimal(ans[i].id as nat)),
            )),
    decreases n,
{
    if n <= 0 {
        assert forall|p: (u32, AnswerValueV)| !(#[trigger] cb_mapping(ans, n).contains(p)) by {
            assert(cb_mapping(ans, n).len() == 0);
        }
    } else {
        lemma_cb_mapping_exact(ans, n - 1);
        let rest = cb_mapping(ans, n - 1);
        let cur = cb_mapping(ans, n);
        assert forall|p: (u32, AnswerValueV)| #[trigger] cur.contains(p) implies (exists|i: int|
            0 <= i < n && checkbox_correct(#[trigger] ans[i]) && p == (
                ans[i].id,
                AnswerValueV::Text(decimal(ans[i].id as nat)),
            )) by {
            let j = choose|j: int| 0 <= j < cur.len() && cur[j] == p;
            if checkbox_correct(ans[n - 1]) {
                if j < rest.len() {
                    assert(rest.contains(p));
                } else {
                    assert(p == (ans[n - 1].id, AnswerValueV::Text(decimal(ans[n - 1].id as nat))));
                    assert(checkbox_correct(ans[n - 1]));
                }
            } else {
                assert(rest.contains(p));
            }
        }
        assert forall|p: (u32, AnswerValueV)| (exists|i: int|
            0 <= i < n && checkbox_correct(#[trigger] ans[i]) && p == (
                ans[i].id,
                AnswerValueV::Text(decimal(ans[i].id as nat)),
            )) implies #[trigger] cur.contains(p) by {
            let i = choose|i: int|
                0 <= i < n && checkbox_correct(#[trigger] ans[i]) && p == (
                    ans[i].id,
                    AnswerValueV::Text(decimal(ans[i].id as nat)),
                );
            if i < n - 1 {
                assert(rest.contains(p));
                let j = choose|j: int| 0 <= j < rest.len() && rest[j] == p;
                if checkbox_correct(ans[n - 1]) {
                    assert(cur[j] == p);
                } else {
                    assert(cur[j] == p);
                }
            } else {
                assert(checkbox_correct(ans[n - 1]));
                assert(cur.last() == p);
            }
        }
    }
}

/// All the ordering positions of a sorting question are present.
pub open spec fn positions_all_present(ans: Seq<AnswerV>) -> bool {
    forall|i: int| 0 <= i < ans.len() ==> (#[trigger] ans[i].correct_position) is Some
}

/// The submission of a sorting question: each of the first `n` options
/// mapped to its platform-declared position, in decimal.
pub open spec fn sort_mapping(ans: Seq<AnswerV>, n: int) -> Seq<(u32, AnswerValueV)>
    decreases n,
{
    if n <= 0 {
        Seq::<(u32, AnswerValueV)>::empty()
    } else {
        sort_mapping(ans, n - 1).push(
            (
                ans[n - 1].id,
                AnswerValueV::Text(
                    match ans[n - 1].correct_position {
                        Some(p) => decimal(p as nat),
                        None => Seq::<char>::empty(),
                    },
                ),
            ),
        )
    }
}

/// The reader's and protocol form of a sorting answer: the option ids in
/// original order, each followed by a space.
pub open spec fn sort_human(ans: Seq<AnswerV>, n: int) -> Seq<char>
    decreases n,
{
    if n <= 0 {
        Seq::<char>::empty()
    } else {
        sort_human(ans, n - 1) + decimal(ans[n - 1].id as nat) + " "@
    }
}

/// The full form of a sorting answer: the options' display values, each
/// followed by a line break.
pub open spec fn sort_exact(ans: Seq<AnswerV>, n: int) -> Seq<char>
    decreases n,
{
    if n <= 0 {
        Seq::<char>::empty()
    } else {
        sort_exact(ans, n - 1) + value_or_note(ans[n - 1].value) + "\n"@
    }
}

/// Builds the one-shot submission of a sorting question from the options'
/// declared positions.  A single option without a position rejects the
/// whole question before anything is submitted.
pub fn sort_answer(q: &Question) -> (r: Result<(Submission, GeneratedAnswer), MatetechError>)
    ensures
        positions_all_present(q@.answers) ==> (match r {
            Ok((s, a)) => s@ == (SubmissionV {
                question_id: q@.id,
                mapping: sort_mapping(q@.answers, q@.answers.len() as int),
            }) && a@ == (GeneratedAnswerV {
                question_id: q@.id,
                question: q@.question,
                human: sort_human(q@.answers, q@.answers.len() as int),
                exact: sort_exact(q@.answers, q@.answers.len() as int),
                machine: sort_human(q@.answers, q@.answers.len() as int),
            }),
            Err(_) => false,
        }),
        !positions_all_present(q@.answers) ==> (match r {
            Ok(_) => false,
            Err(e) => e@ == ErrorV::Unknown("correct_position must be Some(u32)"@),
        }),
{
    let mut mapping: Vec<(u32, AnswerValue)> = Vec::new();
    let mut human = String::new();
    let mut exact = String::new();
    let mut i: usize = 0;
    let n = q.answers.len();
    while i < n
        invariant
            i <= n,
            n == q@.answers.len(),
            forall|j: int| 0 <= j < i ==> (#[trigger] q@.answers[j].correct_position) is Some,
            mapping_view(mapping@) == sort_mapping(q@.answers, i as int),
            human@ == sort_human(q@.answers, i as int),
            exact@ == sort_exact(q@.answers, i as int),
        decreases n - i,
    {
        let a = &q.answers[i];
        let pos = match a.correct_position {
            Some(p) => p,
            None => {
                proof {
                    assert(q@.answers[i as int] == q.answers@[i as int]@);
                    assert(!positions_all_present(q@.answers));
                }
                return Err(
                    MatetechError::Unknown(String::from_str("correct_position must be Some(u32)")),
                );
            },
        };
        let ghost prev = mapping_view(mapping@);
        mapping.push((a.id, AnswerValue::Text(u32_to_string(pos))));
        proof {
            assert(mapping_view(mapping@) =~= prev.push(
                (q@.answers[i as int].id, AnswerValueV::Text(decimal(pos as nat))),
            ));
        }
        human.append(u32_to_string(a.id).as_str());
        human.append(" ");
        exact.append(value_or_note_exec(&a.value).as_str());
        exact.append("\n");
        i += 1;
    }
    let s = Submission { question_id: q.id, mapping };
    let ans = GeneratedAnswer {
        question_id: q.id,
        question: q.question.clone(),
        human: human.clone(),
        exact,
        machine: human,
    };
    Ok((s, ans))
}

/// What a numeric question submits and reports: the platform exposes the
/// expected value as the first option of the refetched question, and the
/// engine reconstructs and submits exactly that value.
pub fn numeric_answer(q: &Question, rq: &Question) -> (r: Result<
    (Submission, GeneratedAnswer),
    MatetechError,
>)
    requires
        q@.answers.len() == 1,
    ensures
        rq@.answers.len() == 0 ==> (match r {
            Ok(_) => false,
            Err(e) => e@ == ErrorV::Other("empty answers"@),
        }),
        rq@.answers.len() > 0 ==> (match r {
            Ok((s, a)) => s@ == (SubmissionV {
                question_id: q@.id,
                mapping: seq![
                    (q@.answers[0].id, AnswerValueV::Text(value_or_note(rq@.answers[0].value))),
                ],
            }) && a@ == (GeneratedAnswerV {
                question_id: q@.id,
                question: q@.question,
                human: value_or_note(rq@.answers[0].value),
                exact: value_or_note(rq@.answers[0].value),
                machine: value_or_note(rq@.answers[0].value),
            }),
            Err(_) => false,
        }),
{
    if rq.answers.len() == 0 {
        return Err(MatetechError::Other(String::from_str("empty answers")));
    }
    let value = value_or_note_exec(&rq.answers[0].value);
    let mut mapping: Vec<(u32, AnswerValue)> = Vec::new();
    mapping.push((q.answers[0].id, AnswerValue::Text(value.clone())));
    proof {
        assert(mapping_view(mapping@) =~= seq![
            (q@.answers[0].id, AnswerValueV::Text(value_or_note(rq@.answers[0].value))),
        ]);
    }
    let s = Submission { question_id: q.id, mapping };
    let a = GeneratedAnswer {
        question_id: q.id,
        question: q.question.clone(),
        human: value.clone(),
        exact: value.clone(),
        machine: value,
    };
    Ok((s, a))
}

/// The submission of a correspondence question: the first `n` platform
/// pairings, each keyed by its index.
pub open spec fn corr_mapping(links: Seq<CorrespondenceLink>, n: int) -> Seq<(u32, AnswerValueV)>
    decreases n,
{
    if n <= 0 {
        Seq::<(u32, AnswerValueV)>::empty()
    } else {
        corr_mapping(links, n - 1).push((((n - 1) as u32), AnswerValueV::Link(links[n - 1])))
    }
}

/// Submits the pairings the platform already returned for a correspondence
/// question, keyed by their index, and reports the fixed marker.
pub fn correspondence_answer(q: &Question, rq: &Question) -> (r: Result<
    (Submission, GeneratedAnswer),
    MatetechError,
>)
    ensures
        rq@.correspondence_links is None ==> (match r {
            Ok(_) => false,
            Err(e) => e@ == ErrorV::Unknown("no correspondence_links"@),
        }),
        rq@.correspondence_links matches Some(links) ==> (match r {
            Ok((s, a)) => s@ == (SubmissionV {
                question_id: q@.id,
                mapping: corr_mapping(links, links.len() as int),
            }) && a@ == (GeneratedAnswerV {
                question_id: q@.id,
                question: q@.question,
                human: "DONE"@,
                exact: "DONE"@,
                machine: "DONE"@,
            }),
            Err(_) => false,
        }),
{
    let links = match &rq.correspondence_links {
        Some(l) => l,
        None => {
            return Err(MatetechError::Unknown(String::from_str("no correspondence_links")));
        },
    };
    let mut mapping: Vec<(u32, AnswerValue)> = Vec::new();
    let mut i: usize = 0;
    while i < links.len()
        invariant
            i <= links@.len(),
            rq@.correspondence_links == Some(links@),
            mapping_view(mapping@) == corr_mapping(links@, i as int),
        decreases links@.len() - i,
    {
        let ghost prev = mapping_view(mapping@);
        let key = #[verifier::truncate] (i as u32);
        mapping.push((key, AnswerValue::Link(links[i])));
        proof {
            assert(mapping_view(mapping@) =~= prev.push(
                (key, AnswerValueV::Link(links@[i as int])),
            ));
        }
        i += 1;
    }
    let s = Submission { question_id: q.id, mapping };
    let done = String::from_str("DONE");
    let a = GeneratedAnswer {
        question_id: q.id,
        question: q.question.clone(),
        human: done.clone(),
        exact: done.clone(),
        machine: done,
    };
    Ok((s, a))
}

/// Every option of a text question already carries a value.
pub open spec fn values_all_present(ans: Seq<AnswerV>) -> bool {
    forall|i: int| 0 <= i < ans.len() ==> (#[trigger] ans[i].value) is Some
}

/// The submission of a text question: each option mapped back to its own
/// declared value.
pub open spec fn ti_mapping(ans: Seq<AnswerV>, n: int) -> Seq<(u32, AnswerValueV)>
    decreases n,
{
    if n <= 0 {
        Seq::<(u32, AnswerValueV)>::empty()
    } else {
        ti_mapping(ans, n - 1).push(
            (
                ans[n - 1].id,
                AnswerValueV::Text(
                    match ans[n - 1].value {
                        Some(v) => v,
                        None => Seq::<char>::empty(),
                    },
                ),
            ),
        )
    }
}

/// All three forms of a text answer: the values, each followed by a
/// semicolon.
pub open spec fn ti_human(ans: Seq<AnswerV>, n: int) -> Seq<char>
    decreases n,
{
    if n <= 0 {
        Seq::<char>::empty()
    } else {
        ti_human(ans, n - 1) + (match ans[n - 1].value {
            Some(v) => v,
            None => Seq::<char>::empty(),
        }) + ";"@
    }
}

/// Echoes every option's declared value back as the answer of a text
/// question.  A single option without a value rejects the whole question
/// before anything is submitted.
pub fn text_input_answer(q: &Question, rq: &Question) -> (r: Result<
    (Submission, GeneratedAnswer),
    MatetechError,
>)
    ensures
        values_all_present(rq@.answers) ==> (match r {
            Ok((s, a)) => s@ == (SubmissionV {
                question_id: q@.id,
                mapping: ti_mapping(rq@.answers, rq@.answers.len() as int),
            }) && a@ == (GeneratedAnswerV {
                question_id: q@.id,
                question: q@.question,
                human: ti_human(rq@.answers, rq@.answers.len() as int),
                exact: ti_human(rq@.answers, rq@.answers.len() as int),
                machine: ti_human(rq@.answers, rq@.answers.len() as int),
            }),
            Err(_) => false,
        }),
        !values_all_present(rq@.answers) ==> (match r {
            Ok(_) => false,
            Err(e) => e@ == ErrorV::Unknown("no value"@),
        }),
{
    let mut mapping: Vec<(u32, AnswerValue)> = Vec::new();
    let mut human = String::new();
    let mut i: usize = 0;
    let n = rq.answers.len();
    while i < n
        invariant
            i <= n,
            n == rq@.answers.len(),
            forall|j: int| 0 <= j < i ==> (#[trigger] rq@.answers[j].value) is Some,
            mapping_view(mapping@) == ti_mapping(rq@.answers, i as int),
            human@ == ti_human(rq@.answers, i as int),
        decreases n - i,
    {
        let a = &rq.answers[i];
        let value = match &a.value {
            Some(v) => v.clone(),
            None => {
                return Err(MatetechError::Unknown(String::from_str("no value")));
            },
        };
        let ghost prev = mapping_view(mapping@);
        human.append(value.as_str());
        human.append(";");
        mapping.push((a.id, AnswerValue::Text(value)));
        proof {
            assert(mapping_view(mapping@) =~= prev.push(
                (
                    rq@.answers[i as int].id,
                    AnswerValueV::Text(
                        match rq@.answers[i as int].value {
                            Some(v) => v,
                            None => Seq::<char>::empty(),
                        },
                    ),
                ),
            ));
        }
        i += 1;
    }
    let s = Submission { question_id: q.id, mapping };
    let ans = GeneratedAnswer {
        question_id: q.id,
        question: q.question.clone(),
        human: human.clone(),
        exact: human.clone(),
        machine: human,
    };
    Ok((s, ans))
}

/// The submission of a select question: among the first `n` choice items,
/// each item flagged correct, its answer slot mapped to the item's own id
/// as a bare number.
pub open spec fn si_mapping(items: Seq<SelectInputItemV>, n: int) -> Seq<(u32, AnswerValueV)>
    decreases n,
{
    if n <= 0 {
        Seq::<(u32, AnswerValueV)>::empty()
    } else {
        let rest = si_mapping(items, n - 1);
        if items[n - 1].correct {
            rest.push((items[n - 1].answer_id, AnswerValueV::Num(items[n - 1].id)))
        } else {
            rest
        }
    }
}

/// All three forms of a select answer: the correct items' values, each
/// followed by a semicolon.
pub open spec fn si_human(items: Seq<SelectInputItemV>, n: int) -> Seq<char>
    decreases n,
{
    if n <= 0 {
        Seq::<char>::empty()
    } else {
        let rest = si_human(items, n - 1);
        if items[n - 1].correct {
            rest + items[n - 1].value + ";"@
        } else {
            rest
        }
    }
}

/// Picks the choice items the platform flags correct and submits each
/// item's id into its answer slot.
pub fn select_input_answer(q: &Question, rq: &Question) -> (r: Result<
    (Submission, GeneratedAnswer),
    MatetechError,
>)
    ensures
        rq@.select_input_items is None ==> (match r {
            Ok(_) => false,
            Err(e) => e@ == ErrorV::Unknown("no select_input_items"@),
        }),
        rq@.select_input_items matches Some(items) ==> (match r {
            Ok((s, a)) => s@ == (SubmissionV {
                question_id: q@.id,
                mapping: si_mapping(items, items.len() as int),
            }) && a@ == (GeneratedAnswerV {
                question_id: q@.id,
                question: q@.question,
                human: si_human(items, items.len() as int),
                exact: si_human(items, items.len() as int),
                machine: si_human(items, items.len() as int),
            }),
            Err(_) => false,
        }),
{
    let items = match &rq.select_input_items {
        Some(it) => it,
        None => {
            return Err(MatetechError::Unknown(String::from_str("no select_input_items")));
        },
    };
    let ghost iv = crate::model::items_view(items@);
    let mut mapping: Vec<(u32, AnswerValue)> = Vec::new();
    let mut human = String::new();
    let mut i: usize = 0;
    while i < items.len()
        invariant
            i <= iv.len(),
            iv == crate::model::items_view(items@),
            rq@.select_input_items == Some(iv),
            mapping_view(mapping@) == si_mapping(iv, i as int),
            human@ == si_human(iv, i as int),
        decreases iv.len() - i,
    {
        let item = &items[i];
        proof {
            assert(iv[i as int] == items@[i as int]@);
        }
        if item.correct {
            let ghost prev = mapping_view(mapping@);
            mapping.push((item.answer_id, AnswerValue::Num(item.id)));
            proof {
                assert(mapping_view(mapping@) =~= prev.push(
                    (iv[i as int].answer_id, AnswerValueV::Num(iv[i as int].id)),
                ));
            }
            human.append(item.value.as_str());
            human.append(";");
        }
        i += 1;
    }
    let s = Submission { question_id: q.id, mapping };
    let ans = GeneratedAnswer {
        question_id: q.id,
        question: q.question.clone(),
        human: human.clone(),
        exact: human.clone(),
        machine: human,
    };
    Ok((s, ans))
}

} // verus!
