use lms::quiz::{
    append_attempt, best_score_of, get_attempt_count, get_best_score, get_latest_attempt,
    get_quiz_attempt, get_quiz_history, has_passed_quiz, history_key, record_quiz_attempt,
    DataKey, Quiz, QuizAttempt, QuizError, QuizStore,
};
use lms::AccountId;

const MAX: u32 = 100;
const PASS: u32 = 70;

fn account(name: &str) -> AccountId {
    AccountId(String::from(name))
}

fn record(store: &mut QuizStore, student: &AccountId, quiz_id: u64, score: u32, now: u64) -> QuizAttempt {
    record_quiz_attempt(store, student.clone(), quiz_id, score, MAX, PASS, now)
        .expect("attempt should be recorded")
}

#[test]
fn records_a_single_attempt() {
    let mut store = QuizStore::new();
    let student = account("GALICE");

    let attempt = record(&mut store, &student, 1, 85, 1_000);

    assert_eq!(attempt.quiz_id, 1);
    assert_eq!(attempt.student, student);
    assert_eq!(attempt.attempt_number, 1);
    assert_eq!(attempt.score, 85);
    assert_eq!(attempt.maximum_score, MAX);
    assert_eq!(attempt.passing_score, PASS);
    assert!(attempt.passed);
    assert_eq!(attempt.timestamp, 1_000);

    assert_eq!(get_attempt_count(&store, &student, 1), 1);
    assert_eq!(get_quiz_history(&store, &student, 1).get(0), Some(&attempt));
}

#[test]
fn stores_multiple_attempts_in_order() {
    let mut store = QuizStore::new();
    let student = account("GALICE");
    let scores = [40u32, 65, 72, 95];

    for (index, score) in scores.iter().enumerate() {
        let attempt = record(&mut store, &student, 7, *score, 500 * (index as u64 + 1));
        assert_eq!(attempt.attempt_number, index as u32 + 1);
    }

    let history = get_quiz_history(&store, &student, 7);
    assert_eq!(history.len(), 4);
    assert_eq!(get_attempt_count(&store, &student, 7), 4);

    for (index, score) in scores.iter().enumerate() {
        let stored = history.get(index).expect("attempt should exist");
        assert_eq!(stored.attempt_number, index as u32 + 1);
        assert_eq!(stored.score, *score);
        assert_eq!(stored.passed, *score >= PASS);
        assert_eq!(stored.timestamp, 500 * (index as u64 + 1));
    }
}

#[test]
fn history_is_preserved_across_later_attempts() {
    let mut store = QuizStore::new();
    let student = account("GALICE");

    let first = record(&mut store, &student, 3, 30, 100);
    record(&mut store, &student, 3, 90, 200);

    let preserved = get_quiz_attempt(&store, &student, 3, 1).expect("first attempt exists");
    assert_eq!(preserved, first);
    assert_eq!(preserved.score, 30);
    assert!(!preserved.passed);
    assert_eq!(preserved.timestamp, 100);

    record(&mut store, &student, 3, 10, 300);

    assert_eq!(get_attempt_count(&store, &student, 3), 3);
    assert_eq!(get_quiz_attempt(&store, &student, 3, 1), Some(first));
    assert!(get_quiz_attempt(&store, &student, 3, 2).unwrap().passed);
    assert!(!get_quiz_attempt(&store, &student, 3, 3).unwrap().passed);
}

#[test]
fn grades_pass_and_fail_at_the_boundary() {
    let mut store = QuizStore::new();
    let student = account("GALICE");

    assert!(!record(&mut store, &student, 1, PASS - 1, 0).passed);
    assert!(record(&mut store, &student, 1, PASS, 0).passed);
    assert!(record(&mut store, &student, 1, MAX, 0).passed);
    assert!(!record(&mut store, &student, 1, 0, 0).passed);
}

#[test]
fn histories_are_isolated_per_student_and_quiz() {
    let mut store = QuizStore::new();
    let alice = account("GALICE");
    let bob = account("GBOB");

    record(&mut store, &alice, 1, 80, 0);
    record(&mut store, &alice, 1, 90, 0);
    record(&mut store, &alice, 2, 60, 0);
    record(&mut store, &bob, 1, 50, 0);

    assert_eq!(get_attempt_count(&store, &alice, 1), 2);
    assert_eq!(get_attempt_count(&store, &alice, 2), 1);
    assert_eq!(get_attempt_count(&store, &bob, 1), 1);

    assert_eq!(get_quiz_attempt(&store, &alice, 2, 1).unwrap().attempt_number, 1);
    assert_eq!(get_quiz_attempt(&store, &bob, 1, 1).unwrap().attempt_number, 1);

    assert_eq!(get_quiz_attempt(&store, &alice, 1, 1).unwrap().score, 80);
    assert_eq!(get_quiz_attempt(&store, &bob, 1, 1).unwrap().score, 50);
}

#[test]
fn reports_latest_best_and_pass_state() {
    let mut store = QuizStore::new();
    let student = account("GALICE");

    assert_eq!(get_latest_attempt(&store, &student, 1), None);
    assert_eq!(get_best_score(&store, &student, 1), None);
    assert!(!has_passed_quiz(&store, &student, 1));

    record(&mut store, &student, 1, 55, 0);
    assert_eq!(get_best_score(&store, &student, 1), Some(55));
    assert!(!has_passed_quiz(&store, &student, 1));

    record(&mut store, &student, 1, 88, 0);
    record(&mut store, &student, 1, 20, 0);

    assert_eq!(get_latest_attempt(&store, &student, 1).unwrap().score, 20);
    assert_eq!(get_best_score(&store, &student, 1), Some(88));
    assert!(has_passed_quiz(&store, &student, 1));
}

#[test]
fn returns_empty_history_for_unknown_quiz() {
    let store = QuizStore::new();
    let student = account("GALICE");

    assert!(get_quiz_history(&store, &student, 999).is_empty());
    assert_eq!(get_attempt_count(&store, &student, 999), 0);
    assert_eq!(get_quiz_attempt(&store, &student, 999, 1), None);
}

#[test]
fn rejects_out_of_range_attempt_numbers() {
    let mut store = QuizStore::new();
    let student = account("GALICE");

    record(&mut store, &student, 1, 75, 0);

    assert_eq!(get_quiz_attempt(&store, &student, 1, 0), None);
    assert_eq!(get_quiz_attempt(&store, &student, 1, 2), None);
    assert!(get_quiz_attempt(&store, &student, 1, 1).is_some());
}

#[test]
fn rejects_invalid_scores_without_touching_history() {
    let mut store = QuizStore::new();
    let student = account("GALICE");

    record(&mut store, &student, 1, 75, 0);

    assert_eq!(
        record_quiz_attempt(&mut store, student.clone(), 1, 0, 0, 0, 0),
        Err(QuizError::InvalidMaximumScore)
    );
    assert_eq!(
        record_quiz_attempt(&mut store, student.clone(), 1, MAX + 1, MAX, PASS, 0),
        Err(QuizError::ScoreOutOfRange)
    );
    assert_eq!(
        record_quiz_attempt(&mut store, student.clone(), 1, 50, MAX, MAX + 1, 0),
        Err(QuizError::InvalidPassingScore)
    );

    assert_eq!(get_attempt_count(&store, &student, 1), 1);
    assert_eq!(get_quiz_attempt(&store, &student, 1, 1).unwrap().score, 75);
}

#[test]
fn test_create_quiz() {
    let quiz = Quiz {
        quiz_id: 1,
        lesson_id: 10,
        passing_score: 70,
        maximum_score: 100,
        reward_points: 50,
        is_active: true,
    };

    assert_eq!(quiz.quiz_id, 1);
    assert_eq!(quiz.lesson_id, 10);
    assert_eq!(quiz.passing_score, 70);
    assert_eq!(quiz.maximum_score, 100);
    assert_eq!(quiz.reward_points, 50);
    assert!(quiz.is_active);
}

#[test]
fn error_checks_come_in_order() {
    let mut store = QuizStore::new();
    let student = account("GALICE");
    // Both the score and the passing threshold are out of range: the score is reported.
    assert_eq!(
        record_quiz_attempt(&mut store, student.clone(), 1, 101, 100, 101, 0),
        Err(QuizError::ScoreOutOfRange)
    );
    // A zero maximum is reported before anything else.
    assert_eq!(
        record_quiz_attempt(&mut store, student.clone(), 1, 5, 0, 9, 0),
        Err(QuizError::InvalidMaximumScore)
    );
    assert!(get_quiz_history(&store, &student, 1).is_empty());
}

#[test]
fn same_student_name_is_the_same_account() {
    let mut store = QuizStore::new();
    record(&mut store, &account("GCAROL"), 4, 71, 9);
    assert_eq!(get_attempt_count(&store, &account("GCAROL"), 4), 1);
    assert_eq!(get_attempt_count(&store, &account("GCAROL2"), 4), 0);
}

#[test]
fn appending_to_a_plain_history() {
    let student = account("GDAVE");
    let mut history: Vec<QuizAttempt> = Vec::new();
    let first = append_attempt(&mut history, student.clone(), 2, 60, 80, 60, 11).unwrap();
    assert_eq!(first.attempt_number, 1);
    assert!(first.passed);
    let second = append_attempt(&mut history, student.clone(), 2, 59, 80, 60, 12).unwrap();
    assert_eq!(second.attempt_number, 2);
    assert!(!second.passed);
    assert_eq!(history, vec![first.clone(), second]);
    assert_eq!(
        append_attempt(&mut history, student.clone(), 2, 81, 80, 60, 13),
        Err(QuizError::ScoreOutOfRange)
    );
    assert_eq!(history.len(), 2);
    assert_eq!(best_score_of(&history), Some(60));
    assert_eq!(best_score_of(&Vec::new()), None);
}

#[test]
fn history_key_names_the_pair() {
    let student = account("GERIN");
    assert_eq!(history_key(&student, 42), DataKey::QuizHistory(account("GERIN"), 42));
}

#[test]
fn best_score_with_zero_scores() {
    let mut store = QuizStore::new();
    let student = account("GFAY");
    record(&mut store, &student, 1, 0, 0);
    assert_eq!(get_best_score(&store, &student, 1), Some(0));
    assert_eq!(get_latest_attempt(&store, &student, 1).unwrap().attempt_number, 1);
}

#[test]
fn history_stays_oldest_first_when_time_moves_forward() {
    let mut store = QuizStore::new();
    let student = account("GGINA");
    for (index, now) in [5u64, 5, 9, 30].iter().enumerate() {
        record(&mut store, &student, 8, 50 + index as u32, *now);
    }
    let history = get_quiz_history(&store, &student, 8);
    for pair in history.windows(2) {
        assert!(pair[0].timestamp <= pair[1].timestamp);
        assert_eq!(pair[0].attempt_number + 1, pair[1].attempt_number);
    }
    assert_eq!(history.last().unwrap().timestamp, 30);
}
