use matetech_engine::Answer;
use matetech_engine::AnswerValue;
use matetech_engine::Oracle;
use matetech_engine::QCommand;
use matetech_engine::Question;
use matetech_engine::QuestionSolver;
use matetech_engine::TestCache;
use matetech_engine::TestSnapshot;
use matetech_engine::MatetechError;
use matetech_engine::solve_question_with;

fn option_of(id: u32, sort: u32, value: &str) -> Answer {
    Answer {
        id,
        sort: Some(sort),
        value: Some(value.to_string()),
        user_correct: None,
        correct_position: None,
    }
}

fn question_of(id: u32, qtype: &str, text: &str, answers: Vec<Answer>) -> Question {
    Question {
        id,
        question: text.to_string(),
        qtype: qtype.to_string(),
        answers,
        correspondence_links: None,
        select_input_items: None,
    }
}

fn single_question_oracle(q: Question, correct: Vec<(u32, Vec<u32>)>) -> Oracle {
    Oracle::new(TestSnapshot { questions: vec![vec![q]] }, correct)
}

fn text_value(v: &AnswerValue) -> String {
    match v {
        AnswerValue::Text(s) => s.clone(),
        _ => panic!("expected a text value"),
    }
}

fn radio_question() -> Question {
    question_of(
        1,
        "radio",
        "pick one",
        vec![option_of(5, 1, "A"), option_of(6, 2, "B"), option_of(7, 3, "C")],
    )
}

#[test]
fn radio_probes_in_order_and_reports_the_third_option() {
    let q = radio_question();
    let mut oracle = single_question_oracle(q.clone(), vec![(1, vec![7])]);
    let mut cache = TestCache::new();

    let ans = solve_question_with(&mut oracle, &mut cache, &q).unwrap();

    assert_eq!(ans.question_id, 1);
    assert_eq!(ans.question, "pick one");
    assert_eq!(ans.human, "3");
    assert_eq!(ans.exact, "C");
    assert_eq!(ans.machine, "7");

    let ids: Vec<u32> = oracle
        .submissions
        .iter()
        .map(|s| {
            assert_eq!(s.question_id, 1);
            assert_eq!(s.mapping.len(), 1);
            s.mapping[0].0
        })
        .collect();
    assert_eq!(ids, vec![5, 6, 7]);
    for s in &oracle.submissions {
        assert_eq!(text_value(&s.mapping[0].1), s.mapping[0].0.to_string());
    }
}

#[test]
fn radio_with_no_confirmed_option_fails_with_unknown() {
    let q = radio_question();
    let mut oracle = single_question_oracle(q.clone(), vec![(1, vec![])]);
    let mut cache = TestCache::new();

    let err = solve_question_with(&mut oracle, &mut cache, &q).unwrap_err();
    match err {
        MatetechError::Unknown(m) => assert_eq!(m, "unable to find correct answer"),
        _ => panic!("expected the unknown-error category"),
    }
    assert_eq!(oracle.submissions.len(), 3);
}

#[test]
fn radio_position_follows_the_sort_key_order() {
    // Options arrive shuffled; the correct one (id 7) has the highest key,
    // so after ordering it stands third and is probed last.
    let q = question_of(
        1,
        "radio",
        "pick one",
        vec![option_of(7, 3, "C"), option_of(5, 1, "A"), option_of(6, 2, "B")],
    );
    let mut oracle = single_question_oracle(q, vec![(1, vec![7])]);
    let mut solver = matetech_engine::Solver::new(77);
    let (transcript, answers) = solver.solve(&mut oracle);

    assert_eq!(transcript, "1-1: 3\n");
    assert_eq!(answers.len(), 1);
    assert_eq!(answers[0].human, "3");
    assert_eq!(answers[0].machine, "7");
    let probed: Vec<u32> = oracle.submissions.iter().map(|s| s.mapping[0].0).collect();
    assert_eq!(probed, vec![5, 6, 7]);
}

#[test]
fn repeated_radio_runs_give_identical_answers() {
    let q = radio_question();
    let mut first = single_question_oracle(q.clone(), vec![(1, vec![6])]);
    let mut second = single_question_oracle(q.clone(), vec![(1, vec![6])]);
    let mut cache1 = TestCache::new();
    let mut cache2 = TestCache::new();

    let a1 = solve_question_with(&mut first, &mut cache1, &q).unwrap();
    let a2 = solve_question_with(&mut second, &mut cache2, &q).unwrap();
    assert!(a1 == a2);
    assert_eq!(a1.human, "2");
    assert_eq!(a1.machine, "6");
}

#[test]
fn checkbox_resubmits_exactly_the_flagged_subset() {
    let q = question_of(
        2,
        "checkbox",
        "pick many",
        vec![
            option_of(1, 1, "A"),
            option_of(2, 2, "B"),
            option_of(3, 3, "C"),
            option_of(4, 4, "D"),
        ],
    );
    let mut oracle = single_question_oracle(q.clone(), vec![(2, vec![2, 4])]);
    let mut cache = TestCache::new();

    let ans = solve_question_with(&mut oracle, &mut cache, &q).unwrap();

    assert_eq!(oracle.submissions.len(), 2);
    let all: Vec<u32> = oracle.submissions[0].mapping.iter().map(|p| p.0).collect();
    assert_eq!(all, vec![1, 2, 3, 4]);
    let kept: Vec<u32> = oracle.submissions[1].mapping.iter().map(|p| p.0).collect();
    assert_eq!(kept, vec![2, 4]);
    for p in &oracle.submissions[1].mapping {
        assert_eq!(text_value(&p.1), p.0.to_string());
    }

    assert_eq!(ans.human, "24");
    assert_eq!(ans.exact, "B\nD\n");
    assert_eq!(ans.machine, "2 4 ");
}

#[test]
fn submission_always_forces_a_fresh_fetch() {
    let q = question_of(3, "checkbox", "pick many", vec![option_of(1, 1, "A")]);
    let mut oracle = single_question_oracle(q.clone(), vec![(3, vec![1])]);
    let mut cache = TestCache::new();

    // Warm the cache first, as the orchestrator would.
    let warm = oracle.fetch();
    cache.install(&warm);
    assert_eq!(oracle.fetch_count, 1);

    let (mut qs, cmd) = QuestionSolver::begin(q, &mut cache);
    let sub = match cmd {
        QCommand::Submit(s) => s,
        _ => panic!("a checkbox starts by submitting every option"),
    };
    oracle.submit(sub);

    // Despite the warm cache, the acknowledgement must trigger a fetch.
    let cmd = qs.on_submitted(&mut cache);
    assert!(matches!(cmd, QCommand::Fetch));
    let raw = oracle.fetch();
    assert_eq!(oracle.fetch_count, 2);
    let cmd = qs.on_snapshot(&mut cache, &raw);
    assert!(matches!(cmd, QCommand::Submit(_)));
}

#[test]
fn input_with_wrong_option_count_fails_before_any_traffic() {
    for answers in [Vec::new(), vec![option_of(1, 1, "A"), option_of(2, 2, "B")]] {
        let q = question_of(4, "input", "fill in", answers);
        let mut oracle = single_question_oracle(q.clone(), vec![]);
        let mut cache = TestCache::new();
        let err = solve_question_with(&mut oracle, &mut cache, &q).unwrap_err();
        match err {
            MatetechError::Unknown(m) => assert_eq!(m, "there must be exactly 1 answer"),
            _ => panic!("expected the unknown-error category"),
        }
        assert_eq!(oracle.submissions.len(), 0);
        assert_eq!(oracle.fetch_count, 0);
    }
}

#[test]
fn numeric_input_with_wrong_option_count_fails_before_any_traffic() {
    for answers in [Vec::new(), vec![option_of(1, 1, "A"), option_of(2, 2, "B")]] {
        let q = question_of(5, "numeric_input", "how many", answers);
        let mut oracle = single_question_oracle(q.clone(), vec![]);
        let mut cache = TestCache::new();
        let err = solve_question_with(&mut oracle, &mut cache, &q).unwrap_err();
        match err {
            MatetechError::Unknown(m) => assert_eq!(m, "there must be exactly 1 answer"),
            _ => panic!("expected the unknown-error category"),
        }
        assert_eq!(oracle.submissions.len(), 0);
        assert_eq!(oracle.fetch_count, 0);
    }
}

#[test]
fn sort_with_a_missing_position_fails_without_submitting() {
    let mut with_pos = option_of(1, 1, "A");
    with_pos.correct_position = Some(2);
    let without_pos = option_of(2, 2, "B");
    let q = question_of(6, "sort", "order these", vec![with_pos, without_pos]);
    let mut oracle = single_question_oracle(q.clone(), vec![]);
    let mut cache = TestCache::new();

    let err = solve_question_with(&mut oracle, &mut cache, &q).unwrap_err();
    match err {
        MatetechError::Unknown(m) => assert_eq!(m, "correct_position must be Some(u32)"),
        _ => panic!("expected the unknown-error category"),
    }
    assert_eq!(oracle.submissions.len(), 0);
    assert_eq!(oracle.fetch_count, 0);
}

#[test]
fn unsupported_type_reports_a_placeholder_without_any_traffic() {
    let q = question_of(7, "matrix", "impossible", vec![option_of(1, 1, "A")]);
    let mut oracle = single_question_oracle(q.clone(), vec![]);
    let mut cache = TestCache::new();

    let ans = solve_question_with(&mut oracle, &mut cache, &q).unwrap();
    assert_eq!(ans.human, "UNSUPPORTED: matrix");
    assert_eq!(ans.exact, "UNSUPPORTED: matrix");
    assert_eq!(ans.machine, "UNSUPPORTED: matrix");
    assert_eq!(oracle.submissions.len(), 0);
    assert_eq!(oracle.fetch_count, 0);
}

#[test]
fn input_submits_the_declared_value() {
    let q = question_of(8, "input", "fill in", vec![option_of(11, 1, "the answer")]);
    let mut oracle = single_question_oracle(q.clone(), vec![]);
    let mut cache = TestCache::new();

    let ans = solve_question_with(&mut oracle, &mut cache, &q).unwrap();
    assert_eq!(ans.human, "the answer");
    assert_eq!(ans.exact, "the answer");
    assert_eq!(ans.machine, "the answer");
    assert_eq!(oracle.submissions.len(), 1);
    let sub = &oracle.submissions[0];
    assert_eq!(sub.mapping.len(), 1);
    assert_eq!(sub.mapping[0].0, 11);
    assert_eq!(text_value(&sub.mapping[0].1), "the answer");
}

#[test]
fn input_without_a_value_submits_the_fixed_note() {
    let mut slot = option_of(11, 1, "x");
    slot.value = None;
    let q = question_of(8, "input", "fill in", vec![slot]);
    let mut oracle = single_question_oracle(q.clone(), vec![]);
    let mut cache = TestCache::new();

    let ans = solve_question_with(&mut oracle, &mut cache, &q).unwrap();
    assert_eq!(ans.exact, "answer value is None");
}

#[test]
fn numeric_input_reads_the_expected_value_from_the_fresh_result() {
    let q = question_of(9, "numeric_input", "how many", vec![option_of(21, 1, "42")]);
    let mut oracle = single_question_oracle(q.clone(), vec![]);
    let mut cache = TestCache::new();

    let ans = solve_question_with(&mut oracle, &mut cache, &q).unwrap();
    assert_eq!(ans.human, "42");
    assert_eq!(ans.machine, "42");
    assert_eq!(oracle.fetch_count, 1);
    assert_eq!(oracle.submissions.len(), 1);
    assert_eq!(oracle.submissions[0].mapping[0].0, 21);
    assert_eq!(text_value(&oracle.submissions[0].mapping[0].1), "42");
}

#[test]
fn a_warm_cache_serves_the_result_without_a_fetch() {
    let q = question_of(9, "numeric_input", "how many", vec![option_of(21, 1, "42")]);
    let mut oracle = single_question_oracle(q.clone(), vec![]);
    let mut cache = TestCache::new();
    let warm = oracle.fetch();
    cache.install(&warm);
    assert_eq!(oracle.fetch_count, 1);

    let ans = solve_question_with(&mut oracle, &mut cache, &q).unwrap();
    assert_eq!(ans.human, "42");
    // The expected value came from the cached snapshot; no further fetch.
    assert_eq!(oracle.fetch_count, 1);
}

#[test]
fn sort_submits_the_declared_ordering_in_one_shot() {
    let mut first = option_of(31, 1, "A");
    first.correct_position = Some(2);
    let mut second = option_of(32, 2, "B");
    second.correct_position = Some(1);
    let q = question_of(10, "sort", "order these", vec![first, second]);
    let mut oracle = single_question_oracle(q.clone(), vec![]);
    let mut cache = TestCache::new();

    let ans = solve_question_with(&mut oracle, &mut cache, &q).unwrap();
    assert_eq!(ans.human, "31 32 ");
    assert_eq!(ans.machine, "31 32 ");
    assert_eq!(ans.exact, "A\nB\n");
    assert_eq!(oracle.submissions.len(), 1);
    let sub = &oracle.submissions[0];
    assert_eq!(sub.mapping.len(), 2);
    assert_eq!(sub.mapping[0].0, 31);
    assert_eq!(text_value(&sub.mapping[0].1), "2");
    assert_eq!(sub.mapping[1].0, 32);
    assert_eq!(text_value(&sub.mapping[1].1), "1");
}

#[test]
fn text_input_echoes_every_value_with_semicolons() {
    let q = question_of(
        11,
        "text_input",
        "write",
        vec![option_of(41, 1, "foo"), option_of(42, 2, "bar")],
    );
    let mut oracle = single_question_oracle(q.clone(), vec![]);
    let mut cache = TestCache::new();

    let ans = solve_question_with(&mut oracle, &mut cache, &q).unwrap();
    assert_eq!(ans.human, "foo;bar;");
    assert_eq!(ans.exact, "foo;bar;");
    assert_eq!(ans.machine, "foo;bar;");
    let sub = &oracle.submissions[0];
    assert_eq!(text_value(&sub.mapping[0].1), "foo");
    assert_eq!(text_value(&sub.mapping[1].1), "bar");
}

#[test]
fn text_input_with_a_missing_value_fails_without_submitting() {
    let mut bad = option_of(42, 2, "x");
    bad.value = None;
    let q = question_of(11, "text_input", "write", vec![option_of(41, 1, "foo"), bad]);
    let mut oracle = single_question_oracle(q.clone(), vec![]);
    let mut cache = TestCache::new();

    let err = solve_question_with(&mut oracle, &mut cache, &q).unwrap_err();
    match err {
        MatetechError::Unknown(m) => assert_eq!(m, "no value"),
        _ => panic!("expected the unknown-error category"),
    }
    assert_eq!(oracle.submissions.len(), 0);
}

#[test]
fn correspondence_submits_the_served_pairings_by_index() {
    let mut q = question_of(12, "correspondence", "match", vec![]);
    q.correspondence_links = Some(vec![
        matetech_engine::CorrespondenceLink { main_id: 100, dependent_id: 200 },
        matetech_engine::CorrespondenceLink { main_id: 101, dependent_id: 201 },
    ]);
    let mut oracle = single_question_oracle(q.clone(), vec![]);
    let mut cache = TestCache::new();

    let ans = solve_question_with(&mut oracle, &mut cache, &q).unwrap();
    assert_eq!(ans.human, "DONE");
    assert_eq!(ans.exact, "DONE");
    assert_eq!(ans.machine, "DONE");
    let sub = &oracle.submissions[0];
    assert_eq!(sub.mapping.len(), 2);
    assert_eq!(sub.mapping[0].0, 0);
    assert_eq!(sub.mapping[1].0, 1);
    match &sub.mapping[0].1 {
        AnswerValue::Link(l) => {
            assert_eq!(l.main_id, 100);
            assert_eq!(l.dependent_id, 200);
        },
        _ => panic!("expected a pairing value"),
    }
}

#[test]
fn correspondence_without_links_fails_without_submitting() {
    let q = question_of(12, "correspondence", "match", vec![]);
    let mut oracle = single_question_oracle(q.clone(), vec![]);
    let mut cache = TestCache::new();

    let err = solve_question_with(&mut oracle, &mut cache, &q).unwrap_err();
    match err {
        MatetechError::Unknown(m) => assert_eq!(m, "no correspondence_links"),
        _ => panic!("expected the unknown-error category"),
    }
    assert_eq!(oracle.submissions.len(), 0);
}

#[test]
fn select_input_picks_the_correct_items() {
    let mut q = question_of(13, "select_input", "choose", vec![]);
    q.select_input_items = Some(vec![
        matetech_engine::SelectInputItem {
            id: 300,
            answer_id: 400,
            value: "yes".to_string(),
            correct: true,
        },
        matetech_engine::SelectInputItem {
            id: 301,
            answer_id: 401,
            value: "no".to_string(),
            correct: false,
        },
    ]);
    let mut oracle = single_question_oracle(q.clone(), vec![]);
    let mut cache = TestCache::new();

    let ans = solve_question_with(&mut oracle, &mut cache, &q).unwrap();
    assert_eq!(ans.human, "yes;");
    let sub = &oracle.submissions[0];
    assert_eq!(sub.mapping.len(), 1);
    assert_eq!(sub.mapping[0].0, 400);
    match sub.mapping[0].1 {
        AnswerValue::Num(n) => assert_eq!(n, 300),
        _ => panic!("expected a bare number value"),
    }
}

#[test]
fn select_input_without_items_fails_without_submitting() {
    let q = question_of(13, "select_input", "choose", vec![]);
    let mut oracle = single_question_oracle(q.clone(), vec![]);
    let mut cache = TestCache::new();

    let err = solve_question_with(&mut oracle, &mut cache, &q).unwrap_err();
    match err {
        MatetechError::Unknown(m) => assert_eq!(m, "no select_input_items"),
        _ => panic!("expected the unknown-error category"),
    }
    assert_eq!(oracle.submissions.len(), 0);
}
