use askme::errors::AskmeError;
use askme::rng::shuffle_arr;
use askme::session::App;
use askme::types::{AskmeSet, Question, Settings};

fn q(title: &str, answers: &[&str]) -> Question {
    Question {
        title: title.to_string(),
        answers: answers.iter().map(|a| a.to_string()).collect(),
    }
}

fn set(questions: Vec<Question>) -> AskmeSet {
    AskmeSet {
        title: "Capitals".to_string(),
        subtitle: "A short drill".to_string(),
        questions,
    }
}

fn settings() -> Settings {
    Settings {
        shuffle: false,
        loop_questions: false,
        case_sensitive: false,
        show_correct: true,
        wait_millis: 0,
        max_choices: 4,
    }
}

#[test]
fn two_question_set_full_score() {
    let questions = vec![
        q("capital of France", &["Paris"]),
        q("capital of England", &["London"]),
    ];
    let mut app = App::new(set(questions), settings());
    app.start().unwrap();
    assert_eq!(app.current_question().title, "capital of France");
    assert!(app.check_answer("paris"));
    assert!(!app.advance());
    assert_eq!(app.current_question().title, "capital of England");
    assert!(app.check_answer("London"));
    assert!(app.advance());
    assert_eq!(app.score(), (2, 2));
}

#[test]
fn wrong_answer_scores_nothing() {
    let questions = vec![q("capital of France", &["Paris"])];
    let mut app = App::new(set(questions), settings());
    app.start().unwrap();
    assert!(!app.check_answer("Lyon"));
    assert!(app.advance());
    assert_eq!(app.score(), (0, 1));
}

#[test]
fn empty_set_fails_to_start() {
    let mut app = App::new(set(Vec::new()), settings());
    let err = app.start().unwrap_err();
    assert_eq!(err.message().as_str(), "no questions provided!");
}

#[test]
fn case_sensitive_session_rejects_wrong_case() {
    let questions = vec![q("capital of France", &["Paris"])];
    let mut config = settings();
    config.case_sensitive = true;
    let mut app = App::new(set(questions), config);
    app.start().unwrap();
    assert!(!app.check_answer("paris"));
}

#[test]
fn looping_session_wraps_around() {
    let questions = vec![q("capital of France", &["Paris"])];
    let mut config = settings();
    config.loop_questions = true;
    let mut app = App::new(set(questions), config);
    app.start().unwrap();
    assert!(app.check_answer("Paris"));
    assert!(!app.advance());
    assert!(app.check_answer("Paris"));
    assert!(!app.advance());
    assert_eq!(app.score(), (2, 1));
}

#[test]
fn true_false_judgement() {
    let questions = vec![q("capital of France", &["Paris"])];
    let mut app = App::new(set(questions), settings());
    app.start().unwrap();
    let shown = "Paris".to_string();
    assert!(app.check_true_false(&shown, true));
    let other = "London".to_string();
    assert!(app.check_true_false(&other, false));
    assert!(!app.check_true_false(&other, true));
    assert_eq!(app.score(), (2, 1));
}

#[test]
fn choice_judgement_compares_texts() {
    let questions = vec![q("capital of France", &["Paris"])];
    let mut app = App::new(set(questions), settings());
    app.start().unwrap();
    let choices = vec!["Lyon".to_string(), "Paris".to_string()];
    assert!(app.check_choice(&choices, 1, &"Paris".to_string()));
    assert!(!app.check_choice(&choices, 1, &"Lyon".to_string()));
    assert_eq!(app.score(), (1, 1));
}

#[test]
fn aggregate_answers_runs_on_the_set() {
    let questions = vec![
        q("capital of France", &["Paris"]),
        q("capital of England", &["London"]),
    ];
    let app = App::new(set(questions.clone()), settings());
    let out = app.aggregate_answers(&questions[0], &questions, 2).unwrap();
    assert_eq!(out.choices.len(), 2);
    assert_eq!(out.choices[out.correct_index], "Paris");
}

#[test]
fn random_answer_respects_exclusion() {
    let questions = vec![
        q("capital of France", &["Paris"]),
        q("capital of England", &["London"]),
    ];
    let app = App::new(set(questions.clone()), settings());
    for _ in 0..20 {
        let answer = app.get_random_answer_from_set(Some(&questions[0]));
        assert_eq!(answer.as_str(), "London");
    }
}

#[test]
fn random_answer_without_exclusion_comes_from_pool() {
    let questions = vec![
        q("capital of France", &["Paris"]),
        q("capital of England", &["London"]),
    ];
    let app = App::new(set(questions), settings());
    for _ in 0..20 {
        let answer = app.get_random_answer_from_set(None);
        assert!(answer.as_str() == "Paris" || answer.as_str() == "London");
    }
}

#[test]
fn shuffle_keeps_the_elements() {
    let original: Vec<u32> = (0..50).collect();
    let mut shuffled = shuffle_arr(original.clone());
    shuffled.sort();
    assert_eq!(shuffled, original);
}

#[test]
fn error_carries_description_and_cause() {
    let err = AskmeError::new("it broke".to_string(), Some("deeper cause".to_string()));
    assert_eq!(err.message().as_str(), "it broke");
    assert_eq!(err.cause, Some("deeper cause".to_string()));
    assert_eq!(err.description, "it broke");
}
