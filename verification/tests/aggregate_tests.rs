use askme::aggregate::aggregate;
use askme::types::Question;

fn q(title: &str, answers: &[&str]) -> Question {
    Question {
        title: title.to_string(),
        answers: answers.iter().map(|a| a.to_string()).collect(),
    }
}

#[test]
fn three_unique_answers_all_used() {
    let pool = vec![
        q("capital of France", &["Paris"]),
        q("capital of England", &["London"]),
        q("capital of Japan", &["Tokyo"]),
    ];
    for _ in 0..50 {
        let out = aggregate(&pool[0], &pool, 3).unwrap();
        assert!(!out.clamped);
        assert_eq!(out.choices.len(), 3);
        let mut sorted = out.choices.clone();
        sorted.sort();
        assert_eq!(sorted, vec!["London", "Paris", "Tokyo"]);
        assert_eq!(out.choices[out.correct_index], "Paris");
    }
}

#[test]
fn single_answer_clamps_to_one() {
    let pool = vec![q("capital of France", &["Paris"])];
    let out = aggregate(&pool[0], &pool, 4).unwrap();
    assert!(out.clamped);
    assert_eq!(out.choices, vec!["Paris"]);
    assert_eq!(out.correct_index, 0);
}

#[test]
fn empty_pool_is_an_error() {
    let target = q("capital of France", &["Paris"]);
    let pool: Vec<Question> = Vec::new();
    assert!(aggregate(&target, &pool, 2).is_err());
}

#[test]
fn answerless_pool_is_an_error() {
    let pool = vec![q("first", &[]), q("second", &[])];
    let target = q("capital of France", &["Paris"]);
    assert!(aggregate(&target, &pool, 2).is_err());
}

#[test]
fn answerless_target_is_an_error() {
    let pool = vec![q("capital of France", &["Paris"])];
    let target = q("empty", &[]);
    assert!(aggregate(&target, &pool, 2).is_err());
}

#[test]
fn distractors_unique_by_value() {
    // Duplicate texts across the pool must not produce duplicate entries.
    let pool = vec![
        q("first", &["a", "b"]),
        q("second", &["b", "c"]),
        q("third", &["c", "d"]),
        q("fourth", &["d", "e"]),
    ];
    let target = q("first", &["a", "b"]);
    for _ in 0..50 {
        let out = aggregate(&target, &pool, 5).unwrap();
        assert!(!out.clamped);
        assert_eq!(out.choices.len(), 5);
        for i in 0..out.choices.len() {
            for j in 0..i {
                assert_ne!(out.choices[i], out.choices[j]);
            }
        }
        let correct = &out.choices[out.correct_index];
        assert!(correct.as_str() == "a" || correct.as_str() == "b");
    }
}

#[test]
fn clamp_counts_distinct_texts_only() {
    // Five answer slots but only two distinct texts: the effective size is
    // two, and the reduction is flagged.
    let pool = vec![q("first", &["x"]), q("second", &["x"]), q("third", &["x", "y"])];
    let target = q("third", &["y"]);
    for _ in 0..20 {
        let out = aggregate(&target, &pool, 4).unwrap();
        assert!(out.clamped);
        assert_eq!(out.choices.len(), 2);
        assert_eq!(out.choices[out.correct_index], "y");
        assert_ne!(out.choices[0], out.choices[1]);
    }
}

#[test]
fn requested_size_within_pool_is_kept() {
    let pool = vec![
        q("capital of France", &["Paris"]),
        q("capital of England", &["London"]),
        q("capital of Japan", &["Tokyo"]),
    ];
    for _ in 0..20 {
        let out = aggregate(&pool[1], &pool, 2).unwrap();
        assert!(!out.clamped);
        assert_eq!(out.choices.len(), 2);
        assert_eq!(out.choices[out.correct_index], "London");
    }
}
