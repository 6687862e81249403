use vstd::prelude::*;

verus! {

/// One answer option of a question, as the platform reports it.
///
/// `user_correct` is populated only after an answer has been submitted for
/// the question and the snapshot refetched; `correct_position` is used only
/// by ordering questions.
pub struct Answer {
    pub id: u32,
    pub sort: Option<u32>,
    pub value: Option<String>,
    pub user_correct: Option<bool>,
    pub correct_position: Option<u32>,
}

/// Mathematical image of an [`Answer`].
#[verifier::ext_equal]
pub ghost struct AnswerV {
    pub id: u32,
    pub sort: Option<u32>,
    pub value: Option<Seq<char>>,
    pub user_correct: Option<bool>,
    pub correct_position: Option<u32>,
}

pub open spec fn opt_str(v: Option<String>) -> Option<Seq<char>> {
    match v {
        Some(s) => Some(s@),
        None => None,
    }
}

impl View for Answer {
    type V = AnswerV;

    open spec fn view(&self) -> AnswerV {
        AnswerV {
            id: self.id,
            sort: self.sort,
            value: opt_str(self.value),
            user_correct: self.user_correct,
            correct_position: self.correct_position,
        }
    }
}

impl Clone for Answer {
    fn clone(&self) -> (r: Self)
        ensures
            r@ == self@,
    {
        let value = match &self.value {
            Some(s) => Some(s.clone()),
            None => None,
        };
        let r = Answer {
            id: self.id,
            sort: self.sort,
            value,
            user_correct: self.user_correct,
            correct_position: self.correct_position,
        };
        proof {
            assert(r@ =~= self@);
        }
        r
    }
}

/// A pairing returned for correspondence questions.
#[derive(Clone, Copy, PartialEq, Eq, Structural, Debug)]
pub struct CorrespondenceLink {
    pub main_id: u32,
    pub dependent_id: u32,
}

/// A choice item returned for select-input questions.
pub struct SelectInputItem {
    pub id: u32,
    pub answer_id: u32,
    pub value: String,
    pub correct: bool,
}

/// Mathematical image of a [`SelectInputItem`].
#[verifier::ext_equal]
pub ghost struct SelectInputItemV {
    pub id: u32,
    pub answer_id: u32,
    pub value: Seq<char>,
    pub correct: bool,
}

impl View for SelectInputItem {
    type V = SelectInputItemV;

    open spec fn view(&self) -> SelectInputItemV {
        SelectInputItemV {
            id: self.id,
            answer_id: self.answer_id,
            value: self.value@,
            correct: self.correct,
        }
    }
}

impl Clone for SelectInputItem {
    fn clone(&self) -> (r: Self)
        ensures
            r@ == self@,
    {
        SelectInputItem {
            id: self.id,
            answer_id: self.answer_id,
            value: self.value.clone(),
            correct: self.correct,
        }
    }
}

/// One question of a test: identity, display text, a type tag, the ordered
/// answer options, and the auxiliary structures that only some question
/// types carry.
pub struct Question {
    pub id: u32,
    pub question: String,
    pub qtype: String,
    pub answers: Vec<Answer>,
    pub correspondence_links: Option<Vec<CorrespondenceLink>>,
    pub select_input_items: Option<Vec<SelectInputItem>>,
}

/// Mathematical image of a [`Question`].
#[verifier::ext_equal]
pub ghost struct QuestionV {
    pub id: u32,
    pub question: Seq<char>,
    pub qtype: Seq<char>,
    pub answers: Seq<AnswerV>,
    pub correspondence_links: Option<Seq<CorrespondenceLink>>,
    pub select_input_items: Option<Seq<SelectInputItemV>>,
}

pub open spec fn answers_view(v: Seq<Answer>) -> Seq<AnswerV> {
    v.map_values(|a: Answer| a@)
}

pub open spec fn items_view(v: Seq<SelectInputItem>) -> Seq<SelectInputItemV> {
    v.map_values(|i: SelectInputItem| i@)
}

impl View for Question {
    type V = QuestionV;

    open spec fn view(&self) -> QuestionV {
        QuestionV {
            id: self.id,
            question: self.question@,
            qtype: self.qtype@,
            answers: answers_view(self.answers@),
            correspondence_links: match self.correspondence_links {
                Some(l) => Some(l@),
                None => None,
            },
            select_input_items: match self.select_input_items {
                Some(i) => Some(items_view(i@)),
                None => None,
            },
        }
    }
}

fn clone_answers(v: &Vec<Answer>) -> (r: Vec<Answer>)
    ensures
        answers_view(r@) == answers_view(v@),
{
    let mut r: Vec<Answer> = Vec::new();
    let mut i: usize = 0;
    while i < v.len()
        invariant
            i <= v.len(),
            r@.len() == i,
            forall|j: int| 0 <= j < i ==> #[trigger] r@[j]@ == v@[j]@,
        decreases v.len() - i,
    {
        r.push(v[i].clone());
        i += 1;
    }
    proof {
        assert(answers_view(r@) =~= answers_view(v@));
    }
    r
}

fn clone_items(v: &Vec<SelectInputItem>) -> (r: Vec<SelectInputItem>)
    ensures
        items_view(r@) == items_view(v@),
{
    let mut r: Vec<SelectInputItem> = Vec::new();
    let mut i: usize = 0;
    while i < v.len()
        invariant
            i <= v.len(),
            r@.len() == i,
            forall|j: int| 0 <= j < i ==> #[trigger] r@[j]@ == v@[j]@,
        decreases v.len() - i,
    {
        r.push(v[i].clone());
        i += 1;
    }
    proof {
        assert(items_view(r@) =~= items_view(v@));
    }
    r
}

fn clone_links(v: &Vec<CorrespondenceLink>) -> (r: Vec<CorrespondenceLink>)
    ensures
        r@ == v@,
{
    let mut r: Vec<CorrespondenceLink> = Vec::new();
    let mut i: usize = 0;
    while i < v.len()
        invariant
            i <= v.len(),
            r@ =~= v@.take(i as int),
        decreases v.len() - i,
    {
        r.push(v[i]);
        i += 1;
    }
    proof {
        assert(r@ =~= v@);
    }
    r
}

impl Clone for Question {
    fn clone(&self) -> (r: Self)
        ensures
            r@ == self@,
    {
        let correspondence_links = match &self.correspondence_links {
            Some(l) => Some(clone_links(l)),
            None => None,
        };
        let select_input_items = match &self.select_input_items {
            Some(i) => Some(clone_items(i)),
            None => None,
        };
        let r = Question {
            id: self.id,
            question: self.question.clone(),
            qtype: self.qtype.clone(),
            answers: clone_answers(&self.answers),
            correspondence_links,
            select_input_items,
        };
        proof {
            assert(r@ =~= self@);
        }
        r
    }
}

/// The full state of a test attempt: an ordered sequence of question
/// groups, each an ordered sequence of questions.
pub struct TestSnapshot {
    pub questions: Vec<Vec<Question>>,
}

pub open spec fn group_view(g: Seq<Question>) -> Seq<QuestionV> {
    g.map_values(|q: Question| q@)
}

pub open spec fn snapshot_view(s: Seq<Vec<Question>>) -> Seq<Seq<QuestionV>> {
    s.map_values(|g: Vec<Question>| group_view(g@))
}

impl View for TestSnapshot {
    type V = Seq<Seq<QuestionV>>;

    open spec fn view(&self) -> Seq<Seq<QuestionV>> {
        snapshot_view(self.questions@)
    }
}

/// The engine's output for one question: the question's identity and text,
/// and the discovered answer rendered three ways — for a reader, in full,
/// and for the submission protocol.
#[derive(Debug)]
pub struct GeneratedAnswer {
    /// Question ID
    pub question_id: u32,
    /// Full question text
    pub question: String,
    /// Human-readable answer
    pub human: String,
    /// Full answer
    pub exact: String,
    /// Machine-readable answer
    pub machine: String,
}

/// Mathematical image of a [`GeneratedAnswer`].
#[verifier::ext_equal]
pub ghost struct GeneratedAnswerV {
    pub question_id: u32,
    pub question: Seq<char>,
    pub human: Seq<char>,
    pub exact: Seq<char>,
    pub machine: Seq<char>,
}

impl View for GeneratedAnswer {
    type V = GeneratedAnswerV;

    open spec fn view(&self) -> GeneratedAnswerV {
        GeneratedAnswerV {
            question_id: self.question_id,
            question: self.question@,
            human: self.human@,
            exact: self.exact@,
            machine: self.machine@,
        }
    }
}

impl Clone for GeneratedAnswer {
    fn clone(&self) -> (r: Self)
        ensures
            r@ == self@,
    {
        GeneratedAnswer {
            question_id: self.question_id,
            question: self.question.clone(),
            human: self.human.clone(),
            exact: self.exact.clone(),
            machine: self.machine.clone(),
        }
    }
}

impl PartialEq for GeneratedAnswer {
    fn eq(&self, other: &Self) -> (r: bool) {
        self.question_id == other.question_id && self.question == other.question
            && self.human == other.human && self.exact == other.exact
            && self.machine == other.machine
    }
}

impl vstd::std_specs::cmp::PartialEqSpecImpl for GeneratedAnswer {
    open spec fn obeys_eq_spec() -> bool {
        true
    }

    open spec fn eq_spec(&self, other: &Self) -> bool {
        self@ == other@
    }
}

/// One value of a submitted answer mapping: the platform accepts a plain
/// string, a bare number, or a correspondence pairing, depending on the
/// question type.
pub enum AnswerValue {
    Text(String),
    Num(u32),
    Link(CorrespondenceLink),
}

/// Mathematical image of an [`AnswerValue`].
#[verifier::ext_equal]
pub ghost enum AnswerValueV {
    Text(Seq<char>),
    Num(u32),
    Link(CorrespondenceLink),
}

impl View for AnswerValue {
    type V = AnswerValueV;

    open spec fn view(&self) -> AnswerValueV {
        match self {
            AnswerValue::Text(s) => AnswerValueV::Text(s@),
            AnswerValue::Num(n) => AnswerValueV::Num(*n),
            AnswerValue::Link(l) => AnswerValueV::Link(*l),
        }
    }
}

impl Clone for AnswerValue {
    fn clone(&self) -> (r: Self)
        ensures
            r@ == self@,
    {
        match self {
            AnswerValue::Text(s) => AnswerValue::Text(s.clone()),
            AnswerValue::Num(n) => AnswerValue::Num(*n),
            AnswerValue::Link(l) => AnswerValue::Link(*l),
        }
    }
}

/// A candidate answer for one question, ready to post: the question it
/// belongs to and the option-id-to-value mapping the platform expects.
pub struct Submission {
    pub question_id: u32,
    pub mapping: Vec<(u32, AnswerValue)>,
}

/// Mathematical image of a [`Submission`].
#[verifier::ext_equal]
pub ghost struct SubmissionV {
    pub question_id: u32,
    pub mapping: Seq<(u32, AnswerValueV)>,
}

pub open spec fn mapping_view(m: Seq<(u32, AnswerValue)>) -> Seq<(u32, AnswerValueV)> {
    m.map_values(|p: (u32, AnswerValue)| (p.0, p.1@))
}

impl View for Submission {
    type V = SubmissionV;

    open spec fn view(&self) -> SubmissionV {
        SubmissionV { question_id: self.question_id, mapping: mapping_view(self.mapping@) }
    }
}

} // verus!
