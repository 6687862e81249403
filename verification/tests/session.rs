use matetech_engine::Answer;
use matetech_engine::Oracle;
use matetech_engine::Question;
use matetech_engine::Solver;
use matetech_engine::TestSnapshot;

fn option_of(id: u32, sort: u32, value: &str) -> Answer {
    Answer {
        id,
        sort: Some(sort),
        value: Some(value.to_string()),
        user_correct: None,
        correct_position: None,
    }
}

fn question_of(id: u32, qtype: &str, text: &str, answers: Vec<Answer>) -> Question {
    Question {
        id,
        question: text.to_string(),
        qtype: qtype.to_string(),
        answers,
        correspondence_links: None,
        select_input_items: None,
    }
}

#[test]
fn transcript_labels_follow_group_and_index_including_empty_groups() {
    let radio = question_of(1, "radio", "pick", vec![option_of(5, 1, "A")]);
    let odd = question_of(2, "matrix", "strange", vec![]);
    let snapshot = TestSnapshot { questions: vec![vec![radio], Vec::new(), vec![odd]] };
    let mut oracle = Oracle::new(snapshot, vec![(1, vec![5])]);
    let mut solver = Solver::new(10);

    let (transcript, answers) = solver.solve(&mut oracle);
    assert_eq!(transcript, "1-1: 1\n3-1: UNSUPPORTED: matrix\n");
    assert_eq!(answers.len(), 2);
    assert_eq!(answers[0].machine, "5");
    assert_eq!(answers[1].machine, "UNSUPPORTED: matrix");
}

#[test]
fn one_failing_question_never_stops_the_rest() {
    let broken = question_of(1, "input", "fill", Vec::new());
    let fine = question_of(2, "input", "fill", vec![option_of(9, 1, "ok")]);
    let snapshot = TestSnapshot { questions: vec![vec![broken, fine]] };
    let mut oracle = Oracle::new(snapshot, vec![]);
    let mut solver = Solver::new(11);

    let (transcript, answers) = solver.solve(&mut oracle);
    assert_eq!(
        transcript,
        "1-1: ERROR: unknown error: there must be exactly 1 answer\n1-2: ok\n"
    );
    assert_eq!(answers.len(), 2);
    assert_eq!(answers[1].exact, "ok");
}

#[test]
fn identical_answers_are_collected_once() {
    let a = question_of(3, "matrix", "twin", vec![]);
    let b = question_of(3, "matrix", "twin", vec![]);
    let snapshot = TestSnapshot { questions: vec![vec![a, b]] };
    let mut oracle = Oracle::new(snapshot, vec![]);
    let mut solver = Solver::new(12);

    let (transcript, answers) = solver.solve(&mut oracle);
    assert_eq!(
        transcript,
        "1-1: UNSUPPORTED: matrix\n1-2: UNSUPPORTED: matrix\n"
    );
    assert_eq!(answers.len(), 1);
}

#[test]
fn two_sessions_against_equal_platforms_agree_byte_for_byte() {
    let build = || {
        let radio = question_of(
            1,
            "radio",
            "pick",
            vec![option_of(5, 1, "A"), option_of(6, 2, "B")],
        );
        let mut sort_a = option_of(31, 1, "X");
        sort_a.correct_position = Some(1);
        let sortq = question_of(2, "sort", "order", vec![sort_a]);
        Oracle::new(
            TestSnapshot { questions: vec![vec![radio, sortq]] },
            vec![(1, vec![6])],
        )
    };
    let mut first = build();
    let mut second = build();
    let mut s1 = Solver::new(13);
    let mut s2 = Solver::new(13);

    let (t1, a1) = s1.solve(&mut first);
    let (t2, a2) = s2.solve(&mut second);
    assert_eq!(t1, t2);
    assert_eq!(a1.len(), a2.len());
    for (x, y) in a1.iter().zip(a2.iter()) {
        assert!(x == y);
    }
}

#[test]
fn a_second_run_on_the_same_platform_repeats_the_first() {
    let radio = question_of(
        1,
        "radio",
        "pick",
        vec![option_of(5, 1, "A"), option_of(6, 2, "B"), option_of(7, 3, "C")],
    );
    let textq = question_of(2, "text_input", "write", vec![option_of(9, 1, "w")]);
    let mut oracle = Oracle::new(
        TestSnapshot { questions: vec![vec![radio], vec![textq]] },
        vec![(1, vec![7])],
    );

    let (t1, a1) = Solver::new(20).solve(&mut oracle);
    // The platform now carries the first run's full submission history.
    let (t2, a2) = Solver::new(20).solve(&mut oracle);
    assert_eq!(t1, t2);
    assert_eq!(a1.len(), a2.len());
    for (x, y) in a1.iter().zip(a2.iter()) {
        assert!(x == y);
    }
}

#[test]
fn an_empty_test_solves_to_an_empty_transcript() {
    let mut oracle = Oracle::new(TestSnapshot { questions: Vec::new() }, vec![]);
    let mut solver = Solver::new(14);
    let (transcript, answers) = solver.solve(&mut oracle);
    assert_eq!(transcript, "");
    assert_eq!(answers.len(), 0);
    assert_eq!(oracle.fetch_count, 1);
    assert_eq!(oracle.submissions.len(), 0);
}

#[test]
fn each_radio_probe_costs_one_fresh_fetch() {
    let radio = question_of(
        1,
        "radio",
        "pick",
        vec![option_of(5, 1, "A"), option_of(6, 2, "B"), option_of(7, 3, "C")],
    );
    let snapshot = TestSnapshot { questions: vec![vec![radio]] };
    let mut oracle = Oracle::new(snapshot, vec![(1, vec![7])]);
    let mut solver = Solver::new(15);

    solver.solve(&mut oracle);
    // One fetch for the plan, then one after each of the three probes.
    assert_eq!(oracle.fetch_count, 4);
    assert_eq!(oracle.submissions.len(), 3);
}
